use ct::editor::{search_highlight, EditorEvent, Panel, CT};
use ct::fonts::{FontEntry, FontSetup};
use ct::text_buffer::{
    char_range, delete_char_range, find_chars, get_char_range, insert_text,
};

fn chars(s: &str) -> Vec<char> {
    s.chars().collect()
}

fn string(v: &[char]) -> String {
    v.iter().collect()
}

fn editor_with(text: &str, c1: usize, c2: usize) -> CT {
    let mut ct = CT::default();
    ct.text = chars(text);
    ct.set_cursors(c1, c2);
    ct
}

#[test]
fn get_char_range_orders_cursors() {
    assert_eq!(get_char_range(5, 2), 2..5);
    assert_eq!(get_char_range(2, 5), 2..5);
    assert_eq!(get_char_range(3, 3), 3..3);
}

#[test]
fn char_range_clamps() {
    let t = chars("héllo");
    assert_eq!(string(&char_range(&t, &(1..3))), "él");
    assert_eq!(string(&char_range(&t, &(3..10))), "lo");
    assert_eq!(string(&char_range(&t, &(7..9))), "");
}

#[test]
fn delete_char_range_clamps() {
    let mut t = chars("héllo");
    delete_char_range(&mut t, 1..3);
    assert_eq!(string(&t), "hlo");
    let mut t = chars("héllo");
    delete_char_range(&mut t, 2..99);
    assert_eq!(string(&t), "hé");
}

#[test]
fn insert_text_clamps_and_counts() {
    let mut t = chars("abc");
    assert_eq!(insert_text(&mut t, &chars("XY"), 1), 2);
    assert_eq!(string(&t), "aXYbc");
    let mut t = chars("abc");
    assert_eq!(insert_text(&mut t, &chars("Z"), 10), 1);
    assert_eq!(string(&t), "abcZ");
}

#[test]
fn insert_then_delete_restores() {
    let mut t = chars("edit me");
    let n = insert_text(&mut t, &chars("ed text"), 4);
    delete_char_range(&mut t, 4..4 + n);
    assert_eq!(string(&t), "edit me");
}

#[test]
fn find_chars_first_occurrence() {
    assert_eq!(find_chars(&chars("abcabc"), &chars("bc")), Some(1));
    assert_eq!(find_chars(&chars("abc"), &chars("x")), None);
    assert_eq!(find_chars(&chars("ab"), &chars("abc")), None);
    assert_eq!(find_chars(&chars("ab"), &chars("")), Some(0));
}

#[test]
fn search_highlight_splits() {
    let h = search_highlight(&chars("say hello, hello"), &chars("hello")).unwrap();
    assert_eq!(string(&h.before), "say ");
    assert_eq!(string(&h.found), "hello");
    assert_eq!(string(&h.after), ", hello");
    assert!(search_highlight(&chars("text"), &chars("")).is_none());
    assert!(search_highlight(&chars("text"), &chars("zz")).is_none());
}

#[test]
fn default_state() {
    let ct = CT::default();
    assert!(ct.text.is_empty());
    assert_eq!(ct.selected_language, "English");
    assert_eq!(ct.languages, vec!["German", "English", "Thai"]);
    assert_eq!(ct.r, 0..0);
    assert!(ct.panel_central && !ct.panel_setting);
    assert!(!ct.hide_password && !ct.search_bar && !ct.show_popup);
    assert_eq!(ct.active_panel(), Panel::Editor);
}

#[test]
fn capture_selection_keeps_last_nonempty() {
    let mut ct = editor_with("hello world", 6, 11);
    ct.capture_selection();
    assert_eq!(string(&ct.st), "world");
    assert_eq!(ct.r, 6..11);
    ct.set_cursors(3, 3);
    ct.capture_selection();
    assert_eq!(string(&ct.st), "world");
    assert_eq!(ct.r, 6..11);
    ct.set_cursors(4, 0);
    ct.capture_selection();
    assert_eq!(string(&ct.st), "hell");
    assert_eq!(ct.r, 0..4);
}

#[test]
fn cut_copy_paste() {
    let mut ct = editor_with("hello world", 11, 5);
    assert_eq!(string(&ct.copy()), " world");
    let clip = ct.cut();
    assert_eq!(string(&clip), " world");
    assert_eq!(string(&ct.text), "hello");
    ct.paste(&clip);
    assert_eq!(string(&ct.text), "hello world");
    ct.set_cursors(0, 0);
    ct.paste(&chars(">> "));
    assert_eq!(string(&ct.text), ">> hello world");
}

#[test]
fn cut_then_paste_restores_past_end() {
    let mut ct = editor_with("short", 9, 20);
    let clip = ct.cut();
    assert!(clip.is_empty());
    ct.paste(&clip);
    assert_eq!(string(&ct.text), "short");
}

#[test]
fn popup_actions() {
    let mut ct = editor_with("one two three", 4, 7);
    ct.capture_selection();
    ct.open_popup();
    assert!(ct.show_popup);
    assert_eq!(string(&ct.popup_copy()), "two");
    assert!(!ct.show_popup);
    ct.open_popup();
    assert_eq!(string(&ct.popup_cut()), "two");
    assert_eq!(string(&ct.text), "one  three");
    assert!(!ct.show_popup);
    ct.open_popup();
    ct.popup_paste(&chars("2"));
    assert_eq!(string(&ct.text), "one 2 three");
    ct.open_popup();
    ct.close_popup();
    assert!(!ct.show_popup);
}

#[test]
fn toggles_and_labels() {
    let mut ct = CT::default();
    assert_eq!(ct.password_button_label(), "Show Password");
    ct.toggle_password();
    assert!(ct.hide_password);
    assert_eq!(ct.password_button_label(), "Hide Password");
    ct.toggle_search();
    assert!(ct.search_bar);
    ct.toggle_search();
    assert!(!ct.search_bar);
}

#[test]
fn open_and_save_paths() {
    let mut ct = CT::default();
    ct.opened("/tmp/a.ct".to_string(), chars("secret"));
    assert_eq!(ct.picked_path, "/tmp/a.ct");
    assert_eq!(string(&ct.text), "secret");
    ct.saving("/tmp/b.ct".to_string());
    assert_eq!(ct.picked_path, "/tmp/b.ct");
    assert_eq!(string(&ct.text), "secret");
}

#[test]
fn panels_and_languages() {
    let mut ct = CT::default();
    ct.menu_show_languages();
    assert_eq!(ct.active_panel(), Panel::Settings);
    ct.select_language(2);
    assert_eq!(ct.selected_language, "Thai");
    ct.menu_show_editor();
    // Both panels asked for: the original shows neither.
    assert_eq!(ct.active_panel(), Panel::Blank);
}

#[test]
fn fonts_configured() {
    let mut fonts = FontSetup {
        font_data: vec![FontEntry { name: "Hack".into(), file: "hack.ttf".into() }],
        proportional: vec!["Ubuntu-Light".into(), "NotoEmoji-Regular".into()],
        monospace: vec!["Hack".into()],
    };
    CT::configure_egui_fonts(&mut fonts);
    assert_eq!(fonts.font_data.len(), 20);
    assert_eq!(fonts.font_data[1].name, "noto_sans");
    assert_eq!(fonts.font_data[1].file, "noto-sans.ttf");
    assert_eq!(fonts.font_data[16].file, "sinhala.tff");
    assert_eq!(fonts.font_data[19].name, "hebrew");
    let expected = [
        "noto_sans", "noto_sans_cjk", "thai", "ethiopic", "arabic", "armenian", "bengali",
        "georgian", "gujarati", "kannada", "khmer", "lao", "myammar", "malayalam", "sinhala",
        "tamil", "telugu", "gurmukhi", "hebrew", "Ubuntu-Light", "NotoEmoji-Regular",
    ];
    assert_eq!(fonts.proportional, expected.to_vec());
    assert_eq!(fonts.monospace, vec!["noto_sans", "Hack"]);
}

#[test]
fn handle_dispatches_and_keeps_invariants() {
    let mut ct = CT::default();
    assert!(ct.handle(EditorEvent::Opened { path: "/n".to_string(), plain: chars("abc def") }).is_none());
    ct.handle(EditorEvent::SetCursors { secondary: 4, primary: 7 });
    ct.handle(EditorEvent::Frame);
    assert_eq!(string(&ct.st), "def");
    assert_eq!(string(&ct.handle(EditorEvent::Copy).unwrap()), "def");
    assert_eq!(string(&ct.handle(EditorEvent::Cut).unwrap()), "def");
    assert_eq!(string(&ct.text), "abc ");
    ct.handle(EditorEvent::Paste { clip: chars("def") });
    assert_eq!(string(&ct.text), "abc def");
    ct.handle(EditorEvent::OpenPopup);
    assert_eq!(string(&ct.handle(EditorEvent::PopupCut).unwrap()), "def");
    assert!(!ct.show_popup);
    ct.handle(EditorEvent::MenuShowLanguages);
    assert_eq!(ct.active_panel(), Panel::Settings);
    ct.handle(EditorEvent::SelectLanguage { index: 0 });
    assert_eq!(ct.selected_language, "German");
    assert!(ct.languages.contains(&ct.selected_language));
    ct.handle(EditorEvent::MenuShowEditor);
    assert!(ct.panel_central || ct.panel_setting);
    assert_eq!(ct.languages, vec!["German", "English", "Thai"]);
    assert_eq!(ct.status_text, "");
    assert!(ct.r.start <= ct.r.end);
}
