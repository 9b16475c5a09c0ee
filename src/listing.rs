use vstd::prelude::*;

use crate::format::is_blank;
use crate::text::{chars_of, close_line};

verus! {

/// Reading `s` from the start: the fields finished so far and the field still open.
pub open spec fn field_scan(s: Seq<char>) -> (Seq<Seq<char>>, Seq<char>)
    decreases s.len(),
{
    if s.len() == 0 {
        (Seq::empty(), Seq::empty())
    } else {
        let (done, open) = field_scan(s.drop_last());
        if is_blank(s.last()) {
            (close_line(done, open), Seq::empty())
        } else {
            (done, open.push(s.last()))
        }
    }
}

/// The maximal runs of non-blank characters of `s`, in order.
pub open spec fn fields_of(s: Seq<char>) -> Seq<Seq<char>> {
    close_line(field_scan(s).0, field_scan(s).1)
}

/// The end-of-line attribute says the file is not text: it holds `-text`.
pub open spec fn marks_non_text(attr: Seq<char>) -> bool {
    exists|i: int|
        0 <= i && i + 5 <= attr.len() && #[trigger] attr.subrange(i, i + 5) == seq![
            '-',
            't',
            'e',
            'x',
            't',
        ]
}

/// The path that a listing line `<path> <eol attribute>` names, if the line has
/// exactly those two fields and the attribute does not mark the file as non-text.
pub open spec fn tracked_text_file(line: Seq<char>) -> Option<Seq<char>> {
    let f = fields_of(line);
    if f.len() == 2 && !marks_non_text(f[1]) {
        Some(f[0])
    } else {
        None
    }
}

fn split_fields(line: &str) -> (r: Vec<Vec<char>>)
    ensures
        r.deep_view() == fields_of(line@),
{
    let chars = chars_of(line);
    let mut done: Vec<Vec<char>> = Vec::new();
    let mut open: Vec<char> = Vec::new();
    let mut i: usize = 0;
    while i < chars.len()
        invariant
            i <= chars.len(),
            chars@ == line@,
            (done.deep_view(), open@) == field_scan(chars@.take(i as int)),
        decreases chars.len() - i,
    {
        let c = chars[i];
        assert(chars@.take(i + 1).drop_last() =~= chars@.take(i as int));
        if c == ' ' || c == '\t' || c == '\n' || c == '\r' || c == '\x0b' || c == '\x0c' {
            if open.len() > 0 {
                let ghost before = done.deep_view();
                assert(open.deep_view() =~= open@);
                done.push(open);
                assert(done.deep_view() =~= before.push(open@));
            }
            open = Vec::new();
        } else {
            open.push(c);
        }
        i = i + 1;
    }
    assert(chars@.take(i as int) =~= line@);
    if open.len() > 0 {
        let ghost before = done.deep_view();
        assert(open.deep_view() =~= open@);
        done.push(open);
        assert(done.deep_view() =~= before.push(open@));
    }
    done
}

fn holds_non_text_mark(attr: &Vec<char>) -> (r: bool)
    ensures
        r == marks_non_text(attr@),
{
    let ghost mark = seq!['-', 't', 'e', 'x', 't'];
    if attr.len() < 5 {
        return false;
    }
    let mut i: usize = 0;
    while i <= attr.len() - 5
        invariant
            5 <= attr.len(),
            mark == seq!['-', 't', 'e', 'x', 't'],
            i <= attr.len() - 4,
            forall|k: int| 0 <= k < i ==> #[trigger] attr@.subrange(k, k + 5) != mark,
        decreases attr.len() - i,
    {
        if attr[i] == '-' && attr[i + 1] == 't' && attr[i + 2] == 'e' && attr[i + 3] == 'x' && attr[i
            + 4] == 't' {
            assert(attr@.subrange(i as int, i + 5) =~= mark);
            return true;
        }
        assert(attr@.subrange(i as int, i + 5)[0] == attr@[i as int]);
        assert(attr@.subrange(i as int, i + 5)[1] == attr@[i + 1]);
        assert(attr@.subrange(i as int, i + 5)[2] == attr@[i + 2]);
        assert(attr@.subrange(i as int, i + 5)[3] == attr@[i + 3]);
        assert(attr@.subrange(i as int, i + 5)[4] == attr@[i + 4]);
        i = i + 1;
    }
    false
}

/// The path that one line of the work tree's file listing (`<path> <eol attribute>`)
/// names, if it is a text file; `None` for binary files and malformed lines.
pub fn text_file_of_listing(line: &str) -> (r: Option<Vec<char>>)
    ensures
        r matches Some(p) ==> tracked_text_file(line@) == Some(p@),
        r is None ==> tracked_text_file(line@) is None,
{
    let fields = split_fields(line);
    if fields.len() != 2 {
        return None;
    }
    assert(fields@[0]@ == fields.deep_view()[0]);
    assert(fields@[1]@ == fields.deep_view()[1]);
    if holds_non_text_mark(&fields[1]) {
        return None;
    }
    let mut fields = fields;
    let path = fields.swap_remove(0);
    Some(path)
}

} // verus!
