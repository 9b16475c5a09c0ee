use vstd::prelude::*;

verus! {

/// The characters of `s`, in order.
pub fn chars_of(s: &str) -> (r: Vec<char>)
    ensures
        r@ == s@,
{
    let mut v: Vec<char> = Vec::new();
    for c in it: s.chars()
        invariant
            v@ == it.seq().take(it.index() as int),
    {
        v.push(c);
    }
    v
}

/// A line without the `\r` of a `\r\n` terminator.
pub open spec fn strip_cr(line: Seq<char>) -> Seq<char> {
    if line.len() > 0 && line.last() == '\r' {
        line.drop_last()
    } else {
        line
    }
}

/// `done` with `line` appended, unless `line` is empty.
pub open spec fn close_line(done: Seq<Seq<char>>, line: Seq<char>) -> Seq<Seq<char>> {
    if line.len() == 0 {
        done
    } else {
        done.push(line)
    }
}

/// Reading `s` from the start: the lines finished so far and the line still open.
pub open spec fn line_scan(s: Seq<char>) -> (Seq<Seq<char>>, Seq<char>)
    decreases s.len(),
{
    if s.len() == 0 {
        (Seq::empty(), Seq::empty())
    } else {
        let (done, open) = line_scan(s.drop_last());
        if s.last() == '\n' {
            (close_line(done, strip_cr(open)), Seq::empty())
        } else {
            (done, open.push(s.last()))
        }
    }
}

/// The non-empty lines of `s`: split at `\n`, with `\r\n` also taken as a terminator;
/// a final terminator does not start another line.
pub open spec fn lines_of(s: Seq<char>) -> Seq<Seq<char>> {
    close_line(line_scan(s).0, line_scan(s).1)
}

/// Splits `text` into its non-empty lines.
pub fn split_lines(text: &str) -> (r: Vec<Vec<char>>)
    ensures
        r.deep_view() == lines_of(text@),
{
    let chars = chars_of(text);
    let mut done: Vec<Vec<char>> = Vec::new();
    let mut open: Vec<char> = Vec::new();
    let mut i: usize = 0;
    while i < chars.len()
        invariant
            i <= chars.len(),
            chars@ == text@,
            (done.deep_view(), open@) == line_scan(chars@.take(i as int)),
        decreases chars.len() - i,
    {
        let c = chars[i];
        let ghost prefix = chars@.take(i as int);
        assert(chars@.take(i + 1).drop_last() =~= prefix);
        if c == '\n' {
            if open.len() > 0 && open[open.len() - 1] == '\r' {
                open.pop();
            }
            if open.len() > 0 {
                let ghost before = done.deep_view();
                assert(open.deep_view() =~= open@);
                done.push(open);
                assert(done.deep_view() =~= before.push(open@));
            }
            open = Vec::new();
        } else {
            open.push(c);
        }
        i = i + 1;
    }
    assert(chars@.take(i as int) =~= text@);
    if open.len() > 0 {
        let ghost before = done.deep_view();
                assert(open.deep_view() =~= open@);
        done.push(open);
        assert(done.deep_view() =~= before.push(open@));
    }
    done
}

} // verus!
