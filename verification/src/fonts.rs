//! The fonts that the editor adds to its user interface, so that every
//! script it greets in can be drawn.
use vstd::prelude::*;
use vstd::string::StringExecFns;
use crate::editor::CT;

verus! {

/// A font file shipped with the editor, under the name the UI knows it by.
pub struct FontEntry {
    pub name: String,
    pub file: String,
}

/// The fonts the UI can use and, for each family, the names of the fonts it
/// tries in turn.
pub struct FontSetup {
    /// The font files, by name.
    pub font_data: Vec<FontEntry>,
    /// The fonts of the proportional family, most preferred first.
    pub proportional: Vec<String>,
    /// The fonts of the monospace family, most preferred first.
    pub monospace: Vec<String>,
}

/// Name and file of each font the editor ships, in the order it adds them.
pub open spec fn bundled_fonts() -> Seq<(Seq<char>, Seq<char>)> {
    seq![
        ("noto_sans"@, "noto-sans.ttf"@),
        ("noto_sans_cjk"@, "noto-sans-cjk.otf"@),
        ("thai"@, "thai.ttf"@),
        ("ethiopic"@, "ethiopic.ttf"@),
        ("arabic"@, "arabic.ttf"@),
        ("armenian"@, "armenian.ttf"@),
        ("bengali"@, "bengali.ttf"@),
        ("georgian"@, "georgian.ttf"@),
        ("gujarati"@, "gujarati.ttf"@),
        ("kannada"@, "kannada.ttf"@),
        ("khmer"@, "khmer.ttf"@),
        ("lao"@, "lao.ttf"@),
        ("myammar"@, "myammar.ttf"@),
        ("malayalam"@, "malayalam.ttf"@),
        ("gurmukhi"@, "gurmukhi.ttf"@),
        ("sinhala"@, "sinhala.tff"@),
        ("tamil"@, "tamil.ttf"@),
        ("telugu"@, "telugu.ttf"@),
        ("hebrew"@, "hebrew.ttf"@),
    ]
}

/// The fonts put in front of the proportional family, most preferred first.
pub open spec fn proportional_fonts() -> Seq<Seq<char>> {
    seq![
        "noto_sans"@,
        "noto_sans_cjk"@,
        "thai"@,
        "ethiopic"@,
        "arabic"@,
        "armenian"@,
        "bengali"@,
        "georgian"@,
        "gujarati"@,
        "kannada"@,
        "khmer"@,
        "lao"@,
        "myammar"@,
        "malayalam"@,
        "sinhala"@,
        "tamil"@,
        "telugu"@,
        "gurmukhi"@,
        "hebrew"@,
    ]
}

/// A font name written with dashes in place of underscores.
pub open spec fn dashed(name: Seq<char>) -> Seq<char> {
    Seq::new(name.len(), |i: int| if name[i] == '_' { '-' } else { name[i] })
}

/// The file that the font called `name` is shipped in: its name with dashes,
/// and `.ttf`, but for the CJK font (`.otf`) and the Sinhala one (`.tff`).
#[verifier::opaque]
pub open spec fn font_file_for(name: Seq<char>) -> Seq<char> {
    if name == "noto_sans_cjk"@ {
        dashed(name) + ".otf"@
    } else if name == "sinhala"@ {
        name + ".tff"@
    } else {
        dashed(name) + ".ttf"@
    }
}

proof fn lemma_font_file_0()
    ensures
        bundled_fonts()[0].1 == font_file_for(bundled_fonts()[0].0),
{
    reveal(font_file_for);
    reveal_strlit("noto_sans");
    reveal_strlit("noto-sans.ttf");
    reveal_strlit(".ttf");
    reveal_strlit("noto_sans_cjk");
    reveal_strlit("sinhala");
    assert("noto_sans"@ != "noto_sans_cjk"@ && "noto_sans"@ != "sinhala"@) by {
        if "noto_sans"@.len() == "noto_sans_cjk"@.len() {
            assert("noto_sans"@[8] != "noto_sans_cjk"@[8]);
        }
        if "noto_sans"@.len() == "sinhala"@.len() {
            assert("noto_sans"@[0] != "sinhala"@[0]);
        }
    }
    assert(dashed("noto_sans"@) + ".ttf"@ =~= "noto-sans.ttf"@);
}

proof fn lemma_font_file_1()
    ensures
        bundled_fonts()[1].1 == font_file_for(bundled_fonts()[1].0),
{
    reveal(font_file_for);
    reveal_strlit("noto_sans_cjk");
    reveal_strlit("noto-sans-cjk.otf");
    reveal_strlit(".otf");
    assert(font_file_for("noto_sans_cjk"@) == dashed("noto_sans_cjk"@) + ".otf"@);
    assert(dashed("noto_sans_cjk"@) + ".otf"@ =~= "noto-sans-cjk.otf"@);
}

proof fn lemma_font_file_2()
    ensures
        bundled_fonts()[2].1 == font_file_for(bundled_fonts()[2].0),
{
    reveal(font_file_for);
    reveal_strlit("thai");
    reveal_strlit("thai.ttf");
    reveal_strlit(".ttf");
    reveal_strlit("noto_sans_cjk");
    reveal_strlit("sinhala");
    assert("thai"@ != "noto_sans_cjk"@ && "thai"@ != "sinhala"@) by {
        if "thai"@.len() == "noto_sans_cjk"@.len() {
            assert("thai"@[3] != "noto_sans_cjk"@[3]);
        }
        if "thai"@.len() == "sinhala"@.len() {
            assert("thai"@[0] != "sinhala"@[0]);
        }
    }
    assert(dashed("thai"@) + ".ttf"@ =~= "thai.ttf"@);
}

proof fn lemma_font_file_3()
    ensures
        bundled_fonts()[3].1 == font_file_for(bundled_fonts()[3].0),
{
    reveal(font_file_for);
    reveal_strlit("ethiopic");
    reveal_strlit("ethiopic.ttf");
    reveal_strlit(".ttf");
    reveal_strlit("noto_sans_cjk");
    reveal_strlit("sinhala");
    assert("ethiopic"@ != "noto_sans_cjk"@ && "ethiopic"@ != "sinhala"@) by {
        if "ethiopic"@.len() == "noto_sans_cjk"@.len() {
            assert("ethiopic"@[7] != "noto_sans_cjk"@[7]);
        }
        if "ethiopic"@.len() == "sinhala"@.len() {
            assert("ethiopic"@[0] != "sinhala"@[0]);
        }
    }
    assert(dashed("ethiopic"@) + ".ttf"@ =~= "ethiopic.ttf"@);
}

proof fn lemma_font_file_4()
    ensures
        bundled_fonts()[4].1 == font_file_for(bundled_fonts()[4].0),
{
    reveal(font_file_for);
    reveal_strlit("arabic");
    reveal_strlit("arabic.ttf");
    reveal_strlit(".ttf");
    reveal_strlit("noto_sans_cjk");
    reveal_strlit("sinhala");
    assert("arabic"@ != "noto_sans_cjk"@ && "arabic"@ != "sinhala"@) by {
        if "arabic"@.len() == "noto_sans_cjk"@.len() {
            assert("arabic"@[5] != "noto_sans_cjk"@[5]);
        }
        if "arabic"@.len() == "sinhala"@.len() {
            assert("arabic"@[0] != "sinhala"@[0]);
        }
    }
    assert(dashed("arabic"@) + ".ttf"@ =~= "arabic.ttf"@);
}

proof fn lemma_font_file_5()
    ensures
        bundled_fonts()[5].1 == font_file_for(bundled_fonts()[5].0),
{
    reveal(font_file_for);
    reveal_strlit("armenian");
    reveal_strlit("armenian.ttf");
    reveal_strlit(".ttf");
    reveal_strlit("noto_sans_cjk");
    reveal_strlit("sinhala");
    assert("armenian"@ != "noto_sans_cjk"@ && "armenian"@ != "sinhala"@) by {
        if "armenian"@.len() == "noto_sans_cjk"@.len() {
            assert("armenian"@[7] != "noto_sans_cjk"@[7]);
        }
        if "armenian"@.len() == "sinhala"@.len() {
            assert("armenian"@[0] != "sinhala"@[0]);
        }
    }
    assert(dashed("armenian"@) + ".ttf"@ =~= "armenian.ttf"@);
}

proof fn lemma_font_file_6()
    ensures
        bundled_fonts()[6].1 == font_file_for(bundled_fonts()[6].0),
{
    reveal(font_file_for);
    reveal_strlit("bengali");
    reveal_strlit("bengali.ttf");
    reveal_strlit(".ttf");
    reveal_strlit("noto_sans_cjk");
    reveal_strlit("sinhala");
    assert("bengali"@ != "noto_sans_cjk"@ && "bengali"@ != "sinhala"@) by {
        if "bengali"@.len() == "noto_sans_cjk"@.len() {
            assert("bengali"@[6] != "noto_sans_cjk"@[6]);
        }
        if "bengali"@.len() == "sinhala"@.len() {
            assert("bengali"@[0] != "sinhala"@[0]);
        }
    }
    assert(dashed("bengali"@) + ".ttf"@ =~= "bengali.ttf"@);
}

proof fn lemma_font_file_7()
    ensures
        bundled_fonts()[7].1 == font_file_for(bundled_fonts()[7].0),
{
    reveal(font_file_for);
    reveal_strlit("georgian");
    reveal_strlit("georgian.ttf");
    reveal_strlit(".ttf");
    reveal_strlit("noto_sans_cjk");
    reveal_strlit("sinhala");
    assert("georgian"@ != "noto_sans_cjk"@ && "georgian"@ != "sinhala"@) by {
        if "georgian"@.len() == "noto_sans_cjk"@.len() {
            assert("georgian"@[7] != "noto_sans_cjk"@[7]);
        }
        if "georgian"@.len() == "sinhala"@.len() {
            assert("georgian"@[0] != "sinhala"@[0]);
        }
    }
    assert(dashed("georgian"@) + ".ttf"@ =~= "georgian.ttf"@);
}

proof fn lemma_font_file_8()
    ensures
        bundled_fonts()[8].1 == font_file_for(bundled_fonts()[8].0),
{
    reveal(font_file_for);
    reveal_strlit("gujarati");
    reveal_strlit("gujarati.ttf");
    reveal_strlit(".ttf");
    reveal_strlit("noto_sans_cjk");
    reveal_strlit("sinhala");
    assert("gujarati"@ != "noto_sans_cjk"@ && "gujarati"@ != "sinhala"@) by {
        if "gujarati"@.len() == "noto_sans_cjk"@.len() {
            assert("gujarati"@[7] != "noto_sans_cjk"@[7]);
        }
        if "gujarati"@.len() == "sinhala"@.len() {
            assert("gujarati"@[0] != "sinhala"@[0]);
        }
    }
    assert(dashed("gujarati"@) + ".ttf"@ =~= "gujarati.ttf"@);
}

proof fn lemma_font_file_9()
    ensures
        bundled_fonts()[9].1 == font_file_for(bundled_fonts()[9].0),
{
    reveal(font_file_for);
    reveal_strlit("kannada");
    reveal_strlit("kannada.ttf");
    reveal_strlit(".ttf");
    reveal_strlit("noto_sans_cjk");
    reveal_strlit("sinhala");
    assert("kannada"@ != "noto_sans_cjk"@ && "kannada"@ != "sinhala"@) by {
        if "kannada"@.len() == "noto_sans_cjk"@.len() {
            assert("kannada"@[6] != "noto_sans_cjk"@[6]);
        }
        if "kannada"@.len() == "sinhala"@.len() {
            assert("kannada"@[0] != "sinhala"@[0]);
        }
    }
    assert(dashed("kannada"@) + ".ttf"@ =~= "kannada.ttf"@);
}

proof fn lemma_font_file_10()
    ensures
        bundled_fonts()[10].1 == font_file_for(bundled_fonts()[10].0),
{
    reveal(font_file_for);
    reveal_strlit("khmer");
    reveal_strlit("khmer.ttf");
    reveal_strlit(".ttf");
    reveal_strlit("noto_sans_cjk");
    reveal_strlit("sinhala");
    assert("khmer"@ != "noto_sans_cjk"@ && "khmer"@ != "sinhala"@) by {
        if "khmer"@.len() == "noto_sans_cjk"@.len() {
            assert("khmer"@[4] != "noto_sans_cjk"@[4]);
        }
        if "khmer"@.len() == "sinhala"@.len() {
            assert("khmer"@[0] != "sinhala"@[0]);
        }
    }
    assert(dashed("khmer"@) + ".ttf"@ =~= "khmer.ttf"@);
}

proof fn lemma_font_file_11()
    ensures
        bundled_fonts()[11].1 == font_file_for(bundled_fonts()[11].0),
{
    reveal(font_file_for);
    reveal_strlit("lao");
    reveal_strlit("lao.ttf");
    reveal_strlit(".ttf");
    reveal_strlit("noto_sans_cjk");
    reveal_strlit("sinhala");
    assert("lao"@ != "noto_sans_cjk"@ && "lao"@ != "sinhala"@) by {
        if "lao"@.len() == "noto_sans_cjk"@.len() {
            assert("lao"@[2] != "noto_sans_cjk"@[2]);
        }
        if "lao"@.len() == "sinhala"@.len() {
            assert("lao"@[0] != "sinhala"@[0]);
        }
    }
    assert(dashed("lao"@) + ".ttf"@ =~= "lao.ttf"@);
}

proof fn lemma_font_file_12()
    ensures
        bundled_fonts()[12].1 == font_file_for(bundled_fonts()[12].0),
{
    reveal(font_file_for);
    reveal_strlit("myammar");
    reveal_strlit("myammar.ttf");
    reveal_strlit(".ttf");
    reveal_strlit("noto_sans_cjk");
    reveal_strlit("sinhala");
    assert("myammar"@ != "noto_sans_cjk"@ && "myammar"@ != "sinhala"@) by {
        if "myammar"@.len() == "noto_sans_cjk"@.len() {
            assert("myammar"@[6] != "noto_sans_cjk"@[6]);
        }
        if "myammar"@.len() == "sinhala"@.len() {
            assert("myammar"@[0] != "sinhala"@[0]);
        }
    }
    assert(dashed("myammar"@) + ".ttf"@ =~= "myammar.ttf"@);
}

proof fn lemma_font_file_13()
    ensures
        bundled_fonts()[13].1 == font_file_for(bundled_fonts()[13].0),
{
    reveal(font_file_for);
    reveal_strlit("malayalam");
    reveal_strlit("malayalam.ttf");
    reveal_strlit(".ttf");
    reveal_strlit("noto_sans_cjk");
    reveal_strlit("sinhala");
    assert("malayalam"@ != "noto_sans_cjk"@ && "malayalam"@ != "sinhala"@) by {
        if "malayalam"@.len() == "noto_sans_cjk"@.len() {
            assert("malayalam"@[8] != "noto_sans_cjk"@[8]);
        }
        if "malayalam"@.len() == "sinhala"@.len() {
            assert("malayalam"@[0] != "sinhala"@[0]);
        }
    }
    assert(dashed("malayalam"@) + ".ttf"@ =~= "malayalam.ttf"@);
}

proof fn lemma_font_file_14()
    ensures
        bundled_fonts()[14].1 == font_file_for(bundled_fonts()[14].0),
{
    reveal(font_file_for);
    reveal_strlit("gurmukhi");
    reveal_strlit("gurmukhi.ttf");
    reveal_strlit(".ttf");
    reveal_strlit("noto_sans_cjk");
    reveal_strlit("sinhala");
    assert("gurmukhi"@ != "noto_sans_cjk"@ && "gurmukhi"@ != "sinhala"@) by {
        if "gurmukhi"@.len() == "noto_sans_cjk"@.len() {
            assert("gurmukhi"@[7] != "noto_sans_cjk"@[7]);
        }
        if "gurmukhi"@.len() == "sinhala"@.len() {
            assert("gurmukhi"@[0] != "sinhala"@[0]);
        }
    }
    assert(dashed("gurmukhi"@) + ".ttf"@ =~= "gurmukhi.ttf"@);
}

proof fn lemma_font_file_15()
    ensures
        bundled_fonts()[15].1 == font_file_for(bundled_fonts()[15].0),
{
    reveal(font_file_for);
    reveal_strlit("sinhala");
    reveal_strlit("sinhala.tff");
    reveal_strlit(".tff");
    reveal_strlit("noto_sans_cjk");
    assert("sinhala"@ != "noto_sans_cjk"@) by {
        assert("sinhala"@.len() != "noto_sans_cjk"@.len());
    }
    assert(font_file_for("sinhala"@) == "sinhala"@ + ".tff"@);
    assert("sinhala"@ + ".tff"@ =~= "sinhala.tff"@);
}

proof fn lemma_font_file_16()
    ensures
        bundled_fonts()[16].1 == font_file_for(bundled_fonts()[16].0),
{
    reveal(font_file_for);
    reveal_strlit("tamil");
    reveal_strlit("tamil.ttf");
    reveal_strlit(".ttf");
    reveal_strlit("noto_sans_cjk");
    reveal_strlit("sinhala");
    assert("tamil"@ != "noto_sans_cjk"@ && "tamil"@ != "sinhala"@) by {
        if "tamil"@.len() == "noto_sans_cjk"@.len() {
            assert("tamil"@[4] != "noto_sans_cjk"@[4]);
        }
        if "tamil"@.len() == "sinhala"@.len() {
            assert("tamil"@[0] != "sinhala"@[0]);
        }
    }
    assert(dashed("tamil"@) + ".ttf"@ =~= "tamil.ttf"@);
}

proof fn lemma_font_file_17()
    ensures
        bundled_fonts()[17].1 == font_file_for(bundled_fonts()[17].0),
{
    reveal(font_file_for);
    reveal_strlit("telugu");
    reveal_strlit("telugu.ttf");
    reveal_strlit(".ttf");
    reveal_strlit("noto_sans_cjk");
    reveal_strlit("sinhala");
    assert("telugu"@ != "noto_sans_cjk"@ && "telugu"@ != "sinhala"@) by {
        if "telugu"@.len() == "noto_sans_cjk"@.len() {
            assert("telugu"@[5] != "noto_sans_cjk"@[5]);
        }
        if "telugu"@.len() == "sinhala"@.len() {
            assert("telugu"@[0] != "sinhala"@[0]);
        }
    }
    assert(dashed("telugu"@) + ".ttf"@ =~= "telugu.ttf"@);
}

proof fn lemma_font_file_18()
    ensures
        bundled_fonts()[18].1 == font_file_for(bundled_fonts()[18].0),
{
    reveal(font_file_for);
    reveal_strlit("hebrew");
    reveal_strlit("hebrew.ttf");
    reveal_strlit(".ttf");
    reveal_strlit("noto_sans_cjk");
    reveal_strlit("sinhala");
    assert("hebrew"@ != "noto_sans_cjk"@ && "hebrew"@ != "sinhala"@) by {
        if "hebrew"@.len() == "noto_sans_cjk"@.len() {
            assert("hebrew"@[5] != "noto_sans_cjk"@[5]);
        }
        if "hebrew"@.len() == "sinhala"@.len() {
            assert("hebrew"@[0] != "sinhala"@[0]);
        }
    }
    assert(dashed("hebrew"@) + ".ttf"@ =~= "hebrew.ttf"@);
}

/// Every font the editor ships is registered under the name of its own file,
/// so each script is drawn with the font made for it.
pub proof fn lemma_font_files_match_names()
    ensures
        bundled_fonts().len() == 19,
        forall|i: int|
            0 <= i < 19 ==> #[trigger] bundled_fonts()[i].1 == font_file_for(bundled_fonts()[i].0),
{
    lemma_font_file_0();
    lemma_font_file_1();
    lemma_font_file_2();
    lemma_font_file_3();
    lemma_font_file_4();
    lemma_font_file_5();
    lemma_font_file_6();
    lemma_font_file_7();
    lemma_font_file_8();
    lemma_font_file_9();
    lemma_font_file_10();
    lemma_font_file_11();
    lemma_font_file_12();
    lemma_font_file_13();
    lemma_font_file_14();
    lemma_font_file_15();
    lemma_font_file_16();
    lemma_font_file_17();
    lemma_font_file_18();
    assert forall|i: int| 0 <= i < 19 implies #[trigger] bundled_fonts()[i].1 == font_file_for(
        bundled_fonts()[i].0,
    ) by {
        if i == 0 {}
        if i == 1 {}
        if i == 2 {}
        if i == 3 {}
        if i == 4 {}
        if i == 5 {}
        if i == 6 {}
        if i == 7 {}
        if i == 8 {}
        if i == 9 {}
        if i == 10 {}
        if i == 11 {}
        if i == 12 {}
        if i == 13 {}
        if i == 14 {}
        if i == 15 {}
        if i == 16 {}
        if i == 17 {}
        if i == 18 {}
    }
}

/// Font entries made by adding the bundled fonts each carry the file of their name.
proof fn lemma_added_font_files(before: Seq<FontEntry>, after: Seq<FontEntry>)
    requires
        entries(after) == entries(before) + bundled_fonts(),
    ensures
        forall|j: int|
            before.len() <= j < after.len() ==> #[trigger] after[j].file@ == font_file_for(
                after[j].name@,
            ),
{
    lemma_font_files_match_names();
    let n = before.len() as int;
    assert(entries(after).len() == after.len());
    assert(entries(before).len() == n);
    assert(after.len() == n + 19);
    assert forall|j: int| n <= j < after.len() implies #[trigger] after[j].file@ == font_file_for(
        after[j].name@,
    ) by {
        assert(entries(after)[j] == (after[j].name@, after[j].file@));
        assert(entries(before).len() == n);
        assert((entries(before) + bundled_fonts())[j] == bundled_fonts()[j - n]);
        assert(bundled_fonts()[j - n].1 == font_file_for(bundled_fonts()[j - n].0));
    }
}

/// The fonts put in front of the proportional family are the fonts the
/// editor ships, each once: those up to Malayalam in the order they are
/// added, then Sinhala, Tamil, Telugu, Gurmukhi and Hebrew.
pub proof fn lemma_proportional_fonts_are_bundled()
    ensures
        proportional_fonts().len() == bundled_fonts().len(),
        forall|i: int| 0 <= i < 14 ==> #[trigger] proportional_fonts()[i] == bundled_fonts()[i].0,
        proportional_fonts()[14] == bundled_fonts()[15].0,
        proportional_fonts()[15] == bundled_fonts()[16].0,
        proportional_fonts()[16] == bundled_fonts()[17].0,
        proportional_fonts()[17] == bundled_fonts()[14].0,
        proportional_fonts()[18] == bundled_fonts()[18].0,
{
    assert forall|i: int| 0 <= i < 14 implies #[trigger] proportional_fonts()[i] == bundled_fonts()[i].0 by {
        if i == 0 {} else if i == 1 {} else if i == 2 {} else if i == 3 {} else if i == 4 {}
        else if i == 5 {} else if i == 6 {} else if i == 7 {} else if i == 8 {} else if i == 9 {}
        else if i == 10 {} else if i == 11 {} else if i == 12 {} else {}
    }
}

/// The names of a list of fonts.
pub open spec fn names(v: Seq<String>) -> Seq<Seq<char>> {
    v.map_values(|s: String| s@)
}

/// The names and files of a list of font entries.
pub open spec fn entries(v: Seq<FontEntry>) -> Seq<(Seq<char>, Seq<char>)> {
    v.map_values(|e: FontEntry| (e.name@, e.file@))
}

/// Name and file of font `i` of `bundled_fonts`.
fn bundled_font(i: usize) -> (f: (&'static str, &'static str))
    requires
        i < 19,
    ensures
        (f.0@, f.1@) == bundled_fonts()[i as int],
{
    match i {
        0 => ("noto_sans", "noto-sans.ttf"),
        1 => ("noto_sans_cjk", "noto-sans-cjk.otf"),
        2 => ("thai", "thai.ttf"),
        3 => ("ethiopic", "ethiopic.ttf"),
        4 => ("arabic", "arabic.ttf"),
        5 => ("armenian", "armenian.ttf"),
        6 => ("bengali", "bengali.ttf"),
        7 => ("georgian", "georgian.ttf"),
        8 => ("gujarati", "gujarati.ttf"),
        9 => ("kannada", "kannada.ttf"),
        10 => ("khmer", "khmer.ttf"),
        11 => ("lao", "lao.ttf"),
        12 => ("myammar", "myammar.ttf"),
        13 => ("malayalam", "malayalam.ttf"),
        14 => ("gurmukhi", "gurmukhi.ttf"),
        15 => ("sinhala", "sinhala.tff"),
        16 => ("tamil", "tamil.ttf"),
        17 => ("telugu", "telugu.ttf"),
        _ => ("hebrew", "hebrew.ttf"),
    }
}

/// Inserts the font `name` into a family at position `at`.
fn insert_font(family: &mut Vec<String>, at: usize, name: &str)
    requires
        at <= old(family)@.len(),
    ensures
        names(final(family)@) == names(old(family)@).insert(at as int, name@),
        final(family)@.len() == old(family)@.len() + 1,
{
    family.insert(at, String::from_str(name));
    assert(names(family@) =~= names(old(family)@).insert(at as int, name@));
}

impl CT {
    /// Adds the editor's fonts to the UI's fonts: their files, then, in
    /// front of the proportional family, the fonts in the order of
    /// `proportional_fonts`, and `noto_sans` in front of the monospace family.
    #[verifier::spinoff_prover]
    #[verifier::rlimit(40)]
    pub fn configure_egui_fonts(fonts: &mut FontSetup)
        ensures
            entries(final(fonts).font_data@) == entries(old(fonts).font_data@) + bundled_fonts(),
            names(final(fonts).proportional@) == proportional_fonts() + names(
                old(fonts).proportional@,
            ),
            names(final(fonts).monospace@) == seq!["noto_sans"@] + names(old(fonts).monospace@),
            forall|j: int|
                old(fonts).font_data@.len() <= j < final(fonts).font_data@.len()
                    ==> #[trigger] final(fonts).font_data@[j].file@ == font_file_for(
                    final(fonts).font_data@[j].name@,
                ),
    {
        let mut i: usize = 0;
        while i < 19
            invariant
                i <= 19,
                entries(fonts.font_data@) == entries(old(fonts).font_data@) + bundled_fonts().take(
                    i as int,
                ),
                fonts.proportional == old(fonts).proportional,
                fonts.monospace == old(fonts).monospace,
            decreases 19 - i,
        {
            let (name, file) = bundled_font(i);
            let ghost before = fonts.font_data@;
            fonts.font_data.push(FontEntry { name: String::from_str(name), file: String::from_str(file) });
            assert(entries(fonts.font_data@) =~= entries(before).push((name@, file@)));
            assert(bundled_fonts().take(i + 1) =~= bundled_fonts().take(i as int).push(
                bundled_fonts()[i as int],
            ));
            i += 1;
        }
        assert(bundled_fonts().take(19) =~= bundled_fonts());
        proof {
            lemma_added_font_files(old(fonts).font_data@, fonts.font_data@);
        }

        let ghost p0 = names(fonts.proportional@);
        let p = &mut fonts.proportional;
        insert_font(p, 0, "noto_sans");
        insert_font(p, 1, "noto_sans_cjk");
        insert_font(p, 2, "thai");
        insert_font(p, 3, "ethiopic");
        insert_font(p, 4, "arabic");
        insert_font(p, 5, "armenian");
        insert_font(p, 6, "bengali");
        insert_font(p, 7, "georgian");
        insert_font(p, 8, "gujarati");
        insert_font(p, 9, "kannada");
        insert_font(p, 10, "khmer");
        insert_font(p, 11, "lao");
        insert_font(p, 12, "myammar");
        insert_font(p, 13, "malayalam");
        insert_font(p, 14, "sinhala");
        insert_font(p, 15, "tamil");
        insert_font(p, 16, "telugu");
        insert_font(p, 17, "hebrew");
        insert_font(p, 17, "gurmukhi");
        assert(names(p@) =~= proportional_fonts() + p0);

        insert_font(&mut fonts.monospace, 0, "noto_sans");
        assert(names(fonts.monospace@) =~= seq!["noto_sans"@] + names(old(fonts).monospace@));
    }
}

} // verus!
