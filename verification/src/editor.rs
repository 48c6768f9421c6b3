//! The state of the editor window and what each user action does to it.
//! Drawing, file dialogs, the clipboard and encryption are left to the caller,
//! which hands the outcome of each to these functions.
use vstd::prelude::*;
use vstd::string::StringExecFns;
use crate::text_buffer::{
    char_range, char_range_spec, delete_char_range, delete_spec, find_chars, get_char_range,
    insert_spec, insert_text, lemma_char_range_indices, lemma_delete_then_insert, occurs_at,
};

verus! {

/// Which panel fills the middle of the window.
#[derive(Debug, PartialEq, Eq, Clone, Copy)]
pub enum Panel {
    /// The language chooser.
    Settings,
    /// The text editor.
    Editor,
    /// Neither.
    Blank,
}

/// The editor's state.
pub struct CT {
    /// The text being edited.
    pub text: Vec<char>,
    /// The file last opened or saved.
    pub picked_path: String,
    /// What the status bar shows after "Status: ".
    pub status_text: String,
    /// The secondary end of the selection (where it was started).
    pub cursor1: usize,
    /// The primary end of the selection (where the cursor is).
    pub cursor2: usize,
    /// The password the text is encrypted with.
    pub password: String,
    /// The word that the editor highlights.
    pub search: Vec<char>,
    /// Whether the password is shown in clear.
    pub hide_password: bool,
    /// Whether the search bar is shown.
    pub search_bar: bool,
    /// Whether the context menu is open.
    pub show_popup: bool,
    /// The last non-empty selection.
    pub st: Vec<char>,
    /// The range of the last non-empty selection.
    pub r: std::ops::Range<usize>,
    /// Whether the editor panel was asked for.
    pub panel_central: bool,
    /// Whether the language panel was asked for.
    pub panel_setting: bool,
    /// The language chosen in the language panel.
    pub selected_language: String,
    /// The languages that the language panel offers.
    pub languages: Vec<String>,
}

impl CT {
    /// The stored selection range is ordered.
    pub open spec fn wf(&self) -> bool {
        self.r.start <= self.r.end
    }

    /// The start of the range between the two cursors.
    pub open spec fn sel_start(&self) -> int {
        if self.cursor1 <= self.cursor2 {
            self.cursor1 as int
        } else {
            self.cursor2 as int
        }
    }

    /// The end of the range between the two cursors.
    pub open spec fn sel_end(&self) -> int {
        if self.cursor1 <= self.cursor2 {
            self.cursor2 as int
        } else {
            self.cursor1 as int
        }
    }

    /// The characters between the two cursors.
    pub open spec fn selection(&self) -> Seq<char> {
        char_range_spec(self.text@, self.sel_start(), self.sel_end())
    }

    /// The panel that fills the middle of the window.
    pub open spec fn panel_spec(&self) -> Panel {
        if !self.panel_central && self.panel_setting {
            Panel::Settings
        } else if self.panel_central && !self.panel_setting {
            Panel::Editor
        } else {
            Panel::Blank
        }
    }

    /// The panel that fills the middle of the window: the language chooser
    /// when only it was asked for, the editor when only it was asked for,
    /// nothing otherwise.
    pub fn active_panel(&self) -> (p: Panel)
        ensures
            p == self.panel_spec(),
    {
        if self.panel_central == false && self.panel_setting == true {
            Panel::Settings
        } else if self.panel_central == true && self.panel_setting == false {
            Panel::Editor
        } else {
            Panel::Blank
        }
    }

    /// Each frame of the editor panel: a non-empty selection between the
    /// cursors becomes the stored selection, with its range.
    pub fn capture_selection(&mut self)
        ensures
            old(self).selection().len() > 0 ==> final(self).st@ == old(self).selection()
                && final(self).r.start == old(self).sel_start() && final(self).r.end == old(
                self,
            ).sel_end() && final(self).text == old(self).text && final(self).cursor1 == old(
                self,
            ).cursor1 && final(self).cursor2 == old(self).cursor2,
            old(self).selection().len() > 0 ==> (*final(self) == CT {
                st: final(self).st,
                r: final(self).r,
                ..*old(self)
            }),
            old(self).selection().len() == 0 ==> *final(self) == *old(self),
            final(self).wf() == (old(self).wf() || old(self).selection().len() > 0),
    {
        let r = get_char_range(self.cursor1, self.cursor2);
        let stl = char_range(&self.text, &r);
        if stl.len() > 0 {
            self.st = stl;
            self.r = r;
        }
    }

    /// The label of the button that shows or hides the password.
    pub fn password_button_label(&self) -> (s: &'static str)
        ensures
            self.hide_password ==> s@ == "Hide Password"@,
            !self.hide_password ==> s@ == "Show Password"@,
    {
        if self.hide_password {
            "Hide Password"
        } else {
            "Show Password"
        }
    }

    /// The show/hide password button.
    pub fn toggle_password(&mut self)
        ensures
            *final(self) == (CT { hide_password: !old(self).hide_password, ..*old(self) }),
    {
        self.hide_password = !self.hide_password;
    }

    /// "Open": the file at `path` was read and decrypted into `plain`.
    pub fn opened(&mut self, path: String, plain: Vec<char>)
        ensures
            *final(self) == (CT { picked_path: path, text: plain, ..*old(self) }),
    {
        self.picked_path = path;
        self.text = plain;
    }

    /// "Save": the text is to be encrypted with the password and written to `path`.
    pub fn saving(&mut self, path: String)
        ensures
            *final(self) == (CT { picked_path: path, ..*old(self) }),
    {
        self.picked_path = path;
    }

    /// "Cut": removes the characters between the cursors and returns them
    /// for the clipboard.
    pub fn cut(&mut self) -> (clip: Vec<char>)
        ensures
            clip@ == old(self).selection(),
            final(self).text@ == delete_spec(
                old(self).text@,
                old(self).sel_start(),
                old(self).sel_end(),
            ),
            *final(self) == (CT { text: final(self).text, ..*old(self) }),
    {
        let r = get_char_range(self.cursor1, self.cursor2);
        let st = char_range(&self.text, &r);
        delete_char_range(&mut self.text, r);
        st
    }

    /// "Copy": the characters between the cursors, for the clipboard.
    pub fn copy(&self) -> (clip: Vec<char>)
        ensures
            clip@ == self.selection(),
    {
        let r = get_char_range(self.cursor1, self.cursor2);
        char_range(&self.text, &r)
    }

    /// "Paste": inserts the clipboard's text where the range between the
    /// cursors starts.
    pub fn paste(&mut self, clip: &Vec<char>)
        ensures
            final(self).text@ == insert_spec(old(self).text@, clip@, old(self).sel_start()),
            *final(self) == (CT { text: final(self).text, ..*old(self) }),
    {
        let r = get_char_range(self.cursor1, self.cursor2);
        insert_text(&mut self.text, clip, r.start);
    }

    /// The search button shows or hides the search bar.
    pub fn toggle_search(&mut self)
        ensures
            *final(self) == (CT { search_bar: !old(self).search_bar, ..*old(self) }),
    {
        self.search_bar = !self.search_bar;
    }

    /// The text field reports its cursors.
    pub fn set_cursors(&mut self, secondary: usize, primary: usize)
        ensures
            *final(self) == (CT { cursor1: secondary, cursor2: primary, ..*old(self) }),
    {
        self.cursor1 = secondary;
        self.cursor2 = primary;
    }

    /// A secondary click on the text opens the context menu.
    pub fn open_popup(&mut self)
        ensures
            *final(self) == (CT { show_popup: true, ..*old(self) }),
    {
        self.show_popup = true;
    }

    /// The context menu's "Close", or a primary click anywhere, closes it.
    pub fn close_popup(&mut self)
        ensures
            *final(self) == (CT { show_popup: false, ..*old(self) }),
    {
        self.show_popup = false;
    }

    /// The context menu's "Copy": the stored selection, for the clipboard.
    pub fn popup_copy(&mut self) -> (clip: Vec<char>)
        ensures
            clip@ == old(self).st@,
            *final(self) == (CT { show_popup: false, ..*old(self) }),
    {
        let clip = self.st.clone();
        self.show_popup = false;
        clip
    }

    /// The context menu's "Paste": inserts the clipboard's text where the
    /// range between the cursors starts.
    pub fn popup_paste(&mut self, clip: &Vec<char>)
        ensures
            final(self).text@ == insert_spec(old(self).text@, clip@, old(self).sel_start()),
            *final(self) == (CT { text: final(self).text, show_popup: false, ..*old(self) }),
    {
        let r = get_char_range(self.cursor1, self.cursor2);
        insert_text(&mut self.text, clip, r.start);
        self.show_popup = false;
    }

    /// The context menu's "Cut": the stored selection goes to the clipboard
    /// and its stored range is removed from the text.
    pub fn popup_cut(&mut self) -> (clip: Vec<char>)
        requires
            old(self).wf(),
        ensures
            clip@ == old(self).st@,
            final(self).text@ == delete_spec(
                old(self).text@,
                old(self).r.start as int,
                old(self).r.end as int,
            ),
            *final(self) == (CT { text: final(self).text, show_popup: false, ..*old(self) }),
    {
        let clip = self.st.clone();
        let r = std::ops::Range { start: self.r.start, end: self.r.end };
        delete_char_range(&mut self.text, r);
        self.show_popup = false;
        clip
    }

    /// The menu entries of "File" and "Edit" ask for the editor panel.
    pub fn menu_show_editor(&mut self)
        ensures
            *final(self) == (CT { panel_central: true, ..*old(self) }),
    {
        self.panel_central = true;
    }

    /// "Settings / Languages" asks for the language panel instead of the editor.
    pub fn menu_show_languages(&mut self)
        ensures
            *final(self) == (CT { panel_setting: true, panel_central: false, ..*old(self) }),
            final(self).panel_spec() == Panel::Settings,
    {
        self.panel_setting = true;
        self.panel_central = false;
    }

    /// Picks language `i` of the offered ones.
    pub fn select_language(&mut self, i: usize)
        requires
            i < old(self).languages@.len(),
        ensures
            *final(self) == (CT { selected_language: old(self).languages@[i as int], ..*old(self) }),
    {
        self.selected_language = self.languages[i].clone();
    }
}

/// A user action on the editor window, with what the caller gathered for it.
pub enum EditorEvent {
    /// A frame of the editor panel is drawn.
    Frame,
    /// The show/hide password button.
    TogglePassword,
    /// "Open": the file at `path` was read and decrypted into `plain`.
    Opened { path: String, plain: Vec<char> },
    /// "Save": the text is to be encrypted and written to `path`.
    Saving { path: String },
    /// The "Cut" button.
    Cut,
    /// The "Copy" button.
    Copy,
    /// The "Paste" button, with the clipboard's text.
    Paste { clip: Vec<char> },
    /// The "Search" button.
    ToggleSearch,
    /// The text field reports its cursors.
    SetCursors { secondary: usize, primary: usize },
    /// A secondary click on the text.
    OpenPopup,
    /// The context menu's "Close", or a primary click.
    ClosePopup,
    /// The context menu's "Copy".
    PopupCopy,
    /// The context menu's "Paste", with the clipboard's text.
    PopupPaste { clip: Vec<char> },
    /// The context menu's "Cut".
    PopupCut,
    /// An entry of the "File" or "Edit" menu.
    MenuShowEditor,
    /// "Settings / Languages".
    MenuShowLanguages,
    /// Entry `index` of the language chooser.
    SelectLanguage { index: usize },
}

/// `clip` is some text equal to `s`.
pub open spec fn clip_is(clip: Option<Vec<char>>, s: Seq<char>) -> bool {
    clip matches Some(c) && c@ == s
}

impl CT {
    /// Applies one user action; returns the text for the clipboard, if the
    /// action gives one. Whatever the action: the offered languages and the
    /// status text stay as they are, a chosen language that is offered stays
    /// offered, a window that asked for a panel keeps asking for one, and the
    /// stored selection range stays ordered.
    pub fn handle(&mut self, ev: EditorEvent) -> (clip: Option<Vec<char>>)
        requires
            old(self).wf(),
            ev matches EditorEvent::SelectLanguage { index } ==> index < old(self).languages@.len(),
        ensures
            final(self).wf(),
            final(self).languages == old(self).languages,
            final(self).status_text == old(self).status_text,
            old(self).panel_central || old(self).panel_setting ==> final(self).panel_central
                || final(self).panel_setting,
            old(self).languages@.contains(old(self).selected_language)
                ==> final(self).languages@.contains(final(self).selected_language),
            match ev {
                EditorEvent::Frame => clip is None && (if old(self).selection().len() > 0 {
                    &&& final(self).st@ == old(self).selection()
                    &&& final(self).r.start == old(self).sel_start()
                    &&& final(self).r.end == old(self).sel_end()
                    &&& *final(self) == (CT { st: final(self).st, r: final(self).r, ..*old(self) })
                } else {
                    *final(self) == *old(self)
                }),
                EditorEvent::TogglePassword => clip is None && *final(self) == (CT {
                    hide_password: !old(self).hide_password,
                    ..*old(self)
                }),
                EditorEvent::Opened { path, plain } => clip is None && *final(self) == (CT {
                    picked_path: path,
                    text: plain,
                    ..*old(self)
                }),
                EditorEvent::Saving { path } => clip is None && *final(self) == (CT {
                    picked_path: path,
                    ..*old(self)
                }),
                EditorEvent::Cut => clip_is(clip, old(self).selection()) && final(self).text@
                    == delete_spec(old(self).text@, old(self).sel_start(), old(self).sel_end())
                    && *final(self) == (CT { text: final(self).text, ..*old(self) }),
                EditorEvent::Copy => clip_is(clip, old(self).selection()) && *final(self)
                    == *old(self),
                EditorEvent::Paste { clip: c } => clip is None && final(self).text@ == insert_spec(
                    old(self).text@,
                    c@,
                    old(self).sel_start(),
                ) && *final(self) == (CT { text: final(self).text, ..*old(self) }),
                EditorEvent::ToggleSearch => clip is None && *final(self) == (CT {
                    search_bar: !old(self).search_bar,
                    ..*old(self)
                }),
                EditorEvent::SetCursors { secondary, primary } => clip is None && *final(self) == (
                CT { cursor1: secondary, cursor2: primary, ..*old(self) }),
                EditorEvent::OpenPopup => clip is None && *final(self) == (CT {
                    show_popup: true,
                    ..*old(self)
                }),
                EditorEvent::ClosePopup => clip is None && *final(self) == (CT {
                    show_popup: false,
                    ..*old(self)
                }),
                EditorEvent::PopupCopy => clip_is(clip, old(self).st@) && *final(self) == (CT {
                    show_popup: false,
                    ..*old(self)
                }),
                EditorEvent::PopupPaste { clip: c } => clip is None && final(self).text@
                    == insert_spec(old(self).text@, c@, old(self).sel_start()) && *final(self) == (
                CT { text: final(self).text, show_popup: false, ..*old(self) }),
                EditorEvent::PopupCut => clip_is(clip, old(self).st@) && final(self).text@
                    == delete_spec(old(self).text@, old(self).r.start as int, old(self).r.end as int)
                    && *final(self) == (CT {
                    text: final(self).text,
                    show_popup: false,
                    ..*old(self)
                }),
                EditorEvent::MenuShowEditor => clip is None && *final(self) == (CT {
                    panel_central: true,
                    ..*old(self)
                }),
                EditorEvent::MenuShowLanguages => clip is None && *final(self) == (CT {
                    panel_setting: true,
                    panel_central: false,
                    ..*old(self)
                }),
                EditorEvent::SelectLanguage { index } => clip is None && *final(self) == (CT {
                    selected_language: old(self).languages@[index as int],
                    ..*old(self)
                }),
            },
    {
        match ev {
            EditorEvent::Frame => {
                self.capture_selection();
                None
            },
            EditorEvent::TogglePassword => {
                self.toggle_password();
                None
            },
            EditorEvent::Opened { path, plain } => {
                self.opened(path, plain);
                None
            },
            EditorEvent::Saving { path } => {
                self.saving(path);
                None
            },
            EditorEvent::Cut => Some(self.cut()),
            EditorEvent::Copy => Some(self.copy()),
            EditorEvent::Paste { clip } => {
                self.paste(&clip);
                None
            },
            EditorEvent::ToggleSearch => {
                self.toggle_search();
                None
            },
            EditorEvent::SetCursors { secondary, primary } => {
                self.set_cursors(secondary, primary);
                None
            },
            EditorEvent::OpenPopup => {
                self.open_popup();
                None
            },
            EditorEvent::ClosePopup => {
                self.close_popup();
                None
            },
            EditorEvent::PopupCopy => Some(self.popup_copy()),
            EditorEvent::PopupPaste { clip } => {
                self.popup_paste(&clip);
                None
            },
            EditorEvent::PopupCut => Some(self.popup_cut()),
            EditorEvent::MenuShowEditor => {
                self.menu_show_editor();
                None
            },
            EditorEvent::MenuShowLanguages => {
                self.menu_show_languages();
                None
            },
            EditorEvent::SelectLanguage { index } => {
                self.select_language(index);
                assert(self.languages@[index as int] == self.selected_language);
                None
            },
        }
    }
}

impl Default for CT {
    /// An empty editor showing the editor panel, with English chosen among
    /// German, English and Thai.
    fn default() -> (ct: CT)
        ensures
            ct.text@ == Seq::<char>::empty(),
            ct.picked_path@ == Seq::<char>::empty(),
            ct.status_text@ == Seq::<char>::empty(),
            ct.password@ == Seq::<char>::empty(),
            ct.search@ == Seq::<char>::empty(),
            ct.st@ == Seq::<char>::empty(),
            ct.cursor1 == 0 && ct.cursor2 == 0,
            ct.r.start == 0 && ct.r.end == 0,
            !ct.hide_password && !ct.search_bar && !ct.show_popup,
            ct.panel_central && !ct.panel_setting,
            ct.selected_language@ == "English"@,
            ct.languages@.len() == 3,
            ct.languages@[0]@ == "German"@,
            ct.languages@[1]@ == "English"@,
            ct.languages@[2]@ == "Thai"@,
    {
        let mut languages: Vec<String> = Vec::new();
        languages.push(String::from_str("German"));
        languages.push(String::from_str("English"));
        languages.push(String::from_str("Thai"));
        CT {
            text: Vec::new(),
            picked_path: String::new(),
            status_text: String::new(),
            cursor1: 0,
            cursor2: 0,
            password: String::new(),
            search: Vec::new(),
            st: Vec::new(),
            r: std::ops::Range { start: 0, end: 0 },
            hide_password: false,
            search_bar: false,
            show_popup: false,
            panel_central: true,
            panel_setting: false,
            selected_language: String::from_str("English"),
            languages,
        }
    }
}

/// A text split around the first occurrence of the searched word.
pub struct Highlight {
    /// The text before the word.
    pub before: Vec<char>,
    /// The word itself, drawn in red.
    pub found: Vec<char>,
    /// The text after the word.
    pub after: Vec<char>,
}

/// Splits `text` around the first occurrence of `word`, for drawing the word
/// in red; `None` (the text drawn plain) when the word is empty or absent.
pub fn search_highlight(text: &Vec<char>, word: &Vec<char>) -> (h: Option<Highlight>)
    ensures
        (word@.len() == 0 || forall|q: int| !occurs_at(text@, word@, q)) <==> h is None,
        h matches Some(h) ==> {
            &&& h.found@ == word@
            &&& h.before@ + h.found@ + h.after@ == text@
            &&& occurs_at(text@, word@, h.before@.len() as int)
            &&& forall|q: int| 0 <= q < h.before@.len() ==> !occurs_at(text@, word@, q)
        },
{
    if word.len() == 0 {
        return None;
    }
    match find_chars(text, word) {
        None => None,
        Some(pos) => {
            assert(text@.len() == text.len());
            let r0 = std::ops::Range { start: 0, end: pos };
            let before = char_range(text, &r0);
            let r1 = std::ops::Range { start: pos, end: pos + word.len() };
            let found = char_range(text, &r1);
            let r2 = std::ops::Range { start: pos + word.len(), end: text.len() };
            let after = char_range(text, &r2);
            assert(before@ + found@ + after@ =~= text@);
            Some(Highlight { before, found, after })
        },
    }
}

/// What "Copy" and "Cut" hand to the clipboard are the characters between
/// the two cursors, in the order of the text: with cursor positions past the
/// end taken as the end, the `i`-th is `text[min(cursor1, cursor2) + i]`.
pub proof fn lemma_selection_indices(ct: CT)
    ensures
        ({
            let len = ct.text@.len() as int;
            let lo = if ct.cursor1 <= ct.cursor2 { ct.cursor1 as int } else { ct.cursor2 as int };
            let hi = if ct.cursor1 <= ct.cursor2 { ct.cursor2 as int } else { ct.cursor1 as int };
            let a = if lo <= len { lo } else { len };
            let b = if hi <= len { hi } else { len };
            &&& ct.selection().len() == b - a
            &&& forall|i: int| 0 <= i < b - a ==> #[trigger] ct.selection()[i] == ct.text@[a + i]
        }),
{
    lemma_char_range_indices(ct.text@, ct.sel_start(), ct.sel_end());
}

/// Cutting the selection and pasting it back, with the cursors where they
/// were, gives back the text as it was.
pub proof fn lemma_cut_then_paste(ct: CT)
    ensures
        insert_spec(
            delete_spec(ct.text@, ct.sel_start(), ct.sel_end()),
            ct.selection(),
            ct.sel_start(),
        ) == ct.text@,
{
    lemma_delete_then_insert(ct.text@, ct.sel_start(), ct.sel_end());
}

} // verus!
