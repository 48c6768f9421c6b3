//! Character-indexed editing of a text held as a sequence of `char`s. A
//! position past the end of the text stands for the end of the text.
use vstd::prelude::*;

verus! {

/// Position `i` of a text of `len` characters, past-the-end positions
/// taken as the end.
pub open spec fn clamp(i: int, len: int) -> int {
    if i <= len {
        i
    } else {
        len
    }
}

/// The characters of `text` from position `start` up to position `end`.
pub open spec fn char_range_spec(text: Seq<char>, start: int, end: int) -> Seq<char> {
    text.subrange(clamp(start, text.len() as int), clamp(end, text.len() as int))
}

/// `text` without the characters from position `start` up to position `end`.
pub open spec fn delete_spec(text: Seq<char>, start: int, end: int) -> Seq<char> {
    text.subrange(0, clamp(start, text.len() as int)) + text.subrange(
        clamp(end, text.len() as int),
        text.len() as int,
    )
}

/// `text` with `ins` inserted at position `at`.
pub open spec fn insert_spec(text: Seq<char>, ins: Seq<char>, at: int) -> Seq<char> {
    text.subrange(0, clamp(at, text.len() as int)) + ins + text.subrange(
        clamp(at, text.len() as int),
        text.len() as int,
    )
}

/// The ordered range between two cursor positions: the smaller one starts it.
pub fn get_char_range(c1: usize, c2: usize) -> (r: std::ops::Range<usize>)
    ensures
        r.start == if c1 <= c2 {
            c1
        } else {
            c2
        },
        r.end == if c1 <= c2 {
            c2
        } else {
            c1
        },
        r.start <= r.end,
{
    let mut a = c1;
    let mut b = c2;
    if a > b {
        a = c2;
        b = c1;
    }
    std::ops::Range { start: a, end: b }
}

/// Copies `text[from..to]` onto the end of `out`.
fn extend_from(out: &mut Vec<char>, text: &Vec<char>, from: usize, to: usize)
    requires
        from <= to <= text@.len(),
    ensures
        final(out)@ == old(out)@ + text@.subrange(from as int, to as int),
{
    let mut i = from;
    while i < to
        invariant
            from <= i <= to <= text@.len(),
            out@ == old(out)@ + text@.subrange(from as int, i as int),
        decreases to - i,
    {
        out.push(text[i]);
        i += 1;
        assert(out@ =~= old(out)@ + text@.subrange(from as int, i as int));
    }
}

/// Position `i` clamped to a text of `len` characters.
fn clamp_to(i: usize, len: usize) -> (c: usize)
    ensures
        c == clamp(i as int, len as int),
{
    if i <= len {
        i
    } else {
        len
    }
}

/// The characters of `text` in the range `r`.
pub fn char_range(text: &Vec<char>, r: &std::ops::Range<usize>) -> (s: Vec<char>)
    requires
        r.start <= r.end,
    ensures
        s@ == char_range_spec(text@, r.start as int, r.end as int),
        s@.len() == (if r.end <= text@.len() { r.end as int } else { text@.len() as int }) - (
        if r.start <= text@.len() {
            r.start as int
        } else {
            text@.len() as int
        }),
        forall|i: int|
            0 <= i < s@.len() ==> #[trigger] s@[i] == text@[(if r.start <= text@.len() {
                r.start as int
            } else {
                text@.len() as int
            }) + i],
{
    let a = clamp_to(r.start, text.len());
    let b = clamp_to(r.end, text.len());
    let mut s: Vec<char> = Vec::new();
    extend_from(&mut s, text, a, b);
    assert(s@ =~= char_range_spec(text@, r.start as int, r.end as int));
    s
}

/// Removes the characters in the range `r` from `text`.
pub fn delete_char_range(text: &mut Vec<char>, r: std::ops::Range<usize>)
    requires
        r.start <= r.end,
    ensures
        final(text)@ == delete_spec(old(text)@, r.start as int, r.end as int),
        ({
            let len = old(text)@.len() as int;
            let a = if r.start <= len { r.start as int } else { len };
            let b = if r.end <= len { r.end as int } else { len };
            &&& final(text)@.len() == len - (b - a)
            &&& forall|i: int| 0 <= i < a ==> #[trigger] final(text)@[i] == old(text)@[i]
            &&& forall|i: int| b <= i < len ==> #[trigger] old(text)@[i] == final(text)@[i - (b - a)]
        }),
{
    let a = clamp_to(r.start, text.len());
    let b = clamp_to(r.end, text.len());
    let mut out: Vec<char> = Vec::new();
    extend_from(&mut out, text, 0, a);
    let len = text.len();
    extend_from(&mut out, text, b, len);
    assert(out@ =~= delete_spec(text@, r.start as int, r.end as int));
    *text = out;
}

/// Inserts `ins` into `text` at position `char_index`; returns how many
/// characters were inserted.
pub fn insert_text(text: &mut Vec<char>, ins: &Vec<char>, char_index: usize) -> (n: usize)
    ensures
        final(text)@ == insert_spec(old(text)@, ins@, char_index as int),
        n == ins@.len(),
        ({
            let len = old(text)@.len() as int;
            let a = if char_index <= len { char_index as int } else { len };
            &&& final(text)@.len() == len + ins@.len()
            &&& forall|i: int| 0 <= i < a ==> #[trigger] final(text)@[i] == old(text)@[i]
            &&& forall|i: int| 0 <= i < ins@.len() ==> #[trigger] final(text)@[a + i] == ins@[i]
            &&& forall|i: int| a <= i < len ==> #[trigger] old(text)@[i] == final(text)@[i + ins@.len()]
        }),
{
    let a = clamp_to(char_index, text.len());
    let mut out: Vec<char> = Vec::new();
    extend_from(&mut out, text, 0, a);
    let n = ins.len();
    extend_from(&mut out, ins, 0, n);
    let len = text.len();
    extend_from(&mut out, text, a, len);
    assert(ins@.subrange(0, n as int) =~= ins@);
    assert(out@ =~= insert_spec(text@, ins@, char_index as int));
    *text = out;
    n
}

/// Whether `needle` occurs in `hay` at position `p`.
pub open spec fn occurs_at(hay: Seq<char>, needle: Seq<char>, p: int) -> bool {
    0 <= p && p + needle.len() <= hay.len() && hay.subrange(p, p + needle.len()) == needle
}

/// Whether `needle` occurs in `hay` at position `p`.
fn matches_at(hay: &Vec<char>, needle: &Vec<char>, p: usize) -> (b: bool)
    requires
        p + needle@.len() <= hay.len(),
    ensures
        b == occurs_at(hay@, needle@, p as int),
{
    let mut j: usize = 0;
    while j < needle.len()
        invariant
            p + needle@.len() <= hay.len(),
            j <= needle@.len(),
            forall|k: int| 0 <= k < j ==> hay@[p + k] == needle@[k],
        decreases needle@.len() - j,
    {
        if hay[p + j] != needle[j] {
            assert(hay@.subrange(p as int, p + needle@.len())[j as int] != needle@[j as int]);
            return false;
        }
        j += 1;
    }
    assert(hay@.subrange(p as int, p + needle@.len()) =~= needle@);
    true
}

/// The first position at which `needle` occurs in `hay`, if any.
pub fn find_chars(hay: &Vec<char>, needle: &Vec<char>) -> (pos: Option<usize>)
    ensures
        pos matches Some(p) ==> occurs_at(hay@, needle@, p as int) && forall|q: int|
            0 <= q < p ==> !occurs_at(hay@, needle@, q),
        pos is None ==> forall|q: int| !occurs_at(hay@, needle@, q),
{
    if needle.len() > hay.len() {
        return None;
    }
    let last = hay.len() - needle.len();
    let mut p: usize = 0;
    while p <= last
        invariant
            last + needle@.len() == hay@.len(),
            forall|q: int| 0 <= q < p ==> !occurs_at(hay@, needle@, q),
        decreases last + 1 - p,
    {
        if matches_at(hay, needle, p) {
            return Some(p);
        }
        if p == last {
            return None;
        }
        p += 1;
    }
    None
}

/// The characters from position `start` up to position `end` are those of
/// the text, in order: with positions past the end taken as the end, there
/// are `end - start` of them and the `i`-th is `text[start + i]`.
pub proof fn lemma_char_range_indices(text: Seq<char>, start: int, end: int)
    requires
        0 <= start <= end,
    ensures
        ({
            let len = text.len() as int;
            let a = if start <= len { start } else { len };
            let b = if end <= len { end } else { len };
            &&& char_range_spec(text, start, end).len() == b - a
            &&& forall|i: int|
                0 <= i < b - a ==> #[trigger] char_range_spec(text, start, end)[i] == text[a + i]
        }),
{
}

/// Deleting the characters from `start` up to `end` keeps those before, in
/// order, and moves those after down by the number deleted.
pub proof fn lemma_delete_indices(text: Seq<char>, start: int, end: int)
    requires
        0 <= start <= end,
    ensures
        ({
            let len = text.len() as int;
            let a = if start <= len { start } else { len };
            let b = if end <= len { end } else { len };
            let d = delete_spec(text, start, end);
            &&& d.len() == len - (b - a)
            &&& forall|i: int| 0 <= i < a ==> #[trigger] d[i] == text[i]
            &&& forall|i: int| b <= i < len ==> #[trigger] text[i] == d[i - (b - a)]
        }),
{
}

/// Inserting `ins` at position `at` keeps the characters before, puts those
/// of `ins` in order from there, and moves the rest up by its length.
pub proof fn lemma_insert_indices(text: Seq<char>, ins: Seq<char>, at: int)
    requires
        0 <= at,
    ensures
        ({
            let len = text.len() as int;
            let a = if at <= len { at } else { len };
            let t = insert_spec(text, ins, at);
            &&& t.len() == len + ins.len()
            &&& forall|i: int| 0 <= i < a ==> #[trigger] t[i] == text[i]
            &&& forall|i: int| 0 <= i < ins.len() ==> #[trigger] t[a + i] == ins[i]
            &&& forall|i: int| a <= i < len ==> #[trigger] text[i] == t[i + ins.len()]
        }),
{
}

/// Inserting a text and then deleting the characters just inserted gives
/// back the text as it was.
pub proof fn lemma_insert_then_delete(text: Seq<char>, ins: Seq<char>, at: int)
    requires
        0 <= at,
    ensures
        delete_spec(
            insert_spec(text, ins, at),
            clamp(at, text.len() as int),
            clamp(at, text.len() as int) + ins.len(),
        ) == text,
{
    let a = clamp(at, text.len() as int);
    let t = insert_spec(text, ins, at);
    assert(t.subrange(0, a) =~= text.subrange(0, a));
    assert(t.subrange(a + ins.len(), t.len() as int) =~= text.subrange(a, text.len() as int));
    assert(delete_spec(t, a, a + ins.len()) =~= text);
}

/// Deleting a range and inserting the deleted characters back where the
/// range started gives back the text as it was.
pub proof fn lemma_delete_then_insert(text: Seq<char>, start: int, end: int)
    requires
        0 <= start <= end,
    ensures
        insert_spec(delete_spec(text, start, end), char_range_spec(text, start, end), start)
            == text,
{
    let len = text.len() as int;
    let a = clamp(start, len);
    let b = clamp(end, len);
    let d = delete_spec(text, start, end);
    assert(clamp(start, d.len() as int) == a);
    assert(d.subrange(0, a) =~= text.subrange(0, a));
    assert(d.subrange(a, d.len() as int) =~= text.subrange(b, len));
    assert(insert_spec(d, char_range_spec(text, start, end), start) =~= text);
}

} // verus!
