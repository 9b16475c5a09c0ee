use vstd::prelude::*;

use crate::text::chars_of;

verus! {

/// Which attribution tool produced a blame stream; each one has its own line format.
#[derive(Clone, Copy, PartialEq, Eq, Structural, Debug)]
pub enum ExecutableKind {
    /// `git blame`: `^?<hex> [<file> ]<(author date line)> <text>`.
    ReferenceTool,
    /// `gix blame`: `<hex> <original line> <final line> <text>`.
    CandidateTool,
}

/// Configuration error: the executable's name is not one of the known tools.
#[derive(Clone, Copy, PartialEq, Eq, Debug)]
pub struct UnrecognizedExecutable;

/// A lowercase hexadecimal digit.
pub open spec fn is_hex(c: char) -> bool {
    ('0' <= c && c <= '9') || ('a' <= c && c <= 'f')
}

/// A decimal digit.
pub open spec fn is_digit(c: char) -> bool {
    '0' <= c && c <= '9'
}

/// ASCII white space.
pub open spec fn is_blank(c: char) -> bool {
    c == ' ' || c == '\t' || c == '\n' || c == '\r' || c == '\x0b' || c == '\x0c'
}

/// Characters that may not occur in the file-name field of the reference format.
pub open spec fn is_paren_or_caret(c: char) -> bool {
    c == '(' || c == ')' || c == '^'
}

/// End of the run of hex characters of `s` that starts at `i`.
pub open spec fn hex_end(s: Seq<char>, i: int) -> int
    decreases s.len() - i,
{
    if 0 <= i < s.len() && is_hex(s[i]) {
        hex_end(s, i + 1)
    } else {
        i
    }
}

/// End of the run of decimal digits of `s` that starts at `i`.
pub open spec fn digit_end(s: Seq<char>, i: int) -> int
    decreases s.len() - i,
{
    if 0 <= i < s.len() && is_digit(s[i]) {
        digit_end(s, i + 1)
    } else {
        i
    }
}

/// Start of the run of decimal digits of `s` that ends just before `j`.
pub open spec fn digit_start(s: Seq<char>, j: int) -> int
    decreases j,
{
    if 0 < j <= s.len() && is_digit(s[j - 1]) {
        digit_start(s, j - 1)
    } else {
        j
    }
}

/// Position of the first `(` of `s` at or after `i`, or `s.len()` if there is none.
pub open spec fn open_paren_from(s: Seq<char>, i: int) -> int
    decreases s.len() - i,
{
    if 0 <= i < s.len() && s[i] != '(' {
        open_paren_from(s, i + 1)
    } else if i < 0 {
        0
    } else {
        i
    }
}

/// Candidate format: `<hex> <digits> <digits> <text>`, single spaces between fields.
pub open spec fn candidate_revision(line: Seq<char>) -> Option<Seq<char>> {
    let a = hex_end(line, 0);
    let b = digit_end(line, a + 1);
    let c = digit_end(line, b + 1);
    if 0 < a && a < line.len() && line[a] == ' ' && a + 1 < b && b < line.len() && line[b] == ' '
        && b + 1 < c && c < line.len() && line[c] == ' ' {
        Some(line.subrange(0, a))
    } else {
        None
    }
}

/// The optional file-name field before the annotation, which occupies `s[from..p]`:
/// empty, or at least one character free of `(`, `)` and `^` followed by white space.
pub open spec fn file_field_ok(s: Seq<char>, from: int, p: int) -> bool {
    p == from || (from + 2 <= p && is_blank(s[p - 1]) && forall|k: int|
        from <= k < p ==> !is_paren_or_caret(#[trigger] s[k]))
}

/// `s[p..=q]` is an annotation `(<anything> <digits>)` followed by a space.
pub open spec fn closes_annotation(s: Seq<char>, p: int, q: int) -> bool {
    &&& p < q
    &&& q + 1 < s.len()
    &&& s[q] == ')'
    &&& s[q + 1] == ' '
    &&& digit_start(s, q) < q
    &&& p + 1 <= digit_start(s, q) - 1
    &&& s[digit_start(s, q) - 1] == ' '
}

/// Some `)` after the `(` at `p` closes a well-formed annotation.
pub open spec fn has_annotation(s: Seq<char>, p: int) -> bool {
    exists|q: int| closes_annotation(s, p, q)
}

/// Length of the boundary marker `^` that may start a reference line.
pub open spec fn boundary_len(line: Seq<char>) -> int {
    if line.len() > 0 && line[0] == '^' {
        1
    } else {
        0
    }
}

/// Reference format: an optional `^`, a hex revision id, a space, an optional file-name
/// field, a parenthesized annotation ending in a line number, a space, and the text.
pub open spec fn reference_revision(line: Seq<char>) -> Option<Seq<char>> {
    let h = boundary_len(line);
    let a = hex_end(line, h);
    let p = open_paren_from(line, a + 1);
    if h < a && a < line.len() && line[a] == ' ' && p < line.len() && file_field_ok(line, a + 1, p)
        && has_annotation(line, p) {
        Some(line.subrange(h, a))
    } else {
        None
    }
}

/// The revision id that a line of the given format carries, if the line conforms.
pub open spec fn revision_of(kind: ExecutableKind, line: Seq<char>) -> Option<Seq<char>> {
    match kind {
        ExecutableKind::ReferenceTool => reference_revision(line),
        ExecutableKind::CandidateTool => candidate_revision(line),
    }
}

/// A revision id as a parse yields it: non-empty lowercase hex.
pub open spec fn is_revision_id(r: Seq<char>) -> bool {
    r.len() > 0 && forall|k: int| 0 <= k < r.len() ==> is_hex(#[trigger] r[k])
}

proof fn lemma_hex_run(s: Seq<char>, i: int)
    requires
        0 <= i <= s.len(),
    ensures
        i <= hex_end(s, i) <= s.len(),
        forall|k: int| i <= k < hex_end(s, i) ==> is_hex(#[trigger] s[k]),
    decreases s.len() - i,
{
    if i < s.len() && is_hex(s[i]) {
        lemma_hex_run(s, i + 1);
    }
}

/// Every revision id that a line of either format carries is non-empty lowercase hex.
pub proof fn lemma_revision_is_hex(kind: ExecutableKind, line: Seq<char>)
    ensures
        revision_of(kind, line) matches Some(r) ==> is_revision_id(r),
{
    lemma_hex_run(line, 0);
    if line.len() > 0 {
        lemma_hex_run(line, 1);
    }
    if revision_of(kind, line) is Some {
        let r = revision_of(kind, line)->0;
        let h = if kind == ExecutableKind::ReferenceTool { boundary_len(line) } else { 0 };
        assert forall|k: int| 0 <= k < r.len() implies is_hex(#[trigger] r[k]) by {
            assert(r[k] == line[h + k]);
        }
    }
}

fn hex_char(c: char) -> (r: bool)
    ensures
        r == is_hex(c),
{
    ('0' <= c && c <= '9') || ('a' <= c && c <= 'f')
}

fn digit_char(c: char) -> (r: bool)
    ensures
        r == is_digit(c),
{
    '0' <= c && c <= '9'
}

fn blank_char(c: char) -> (r: bool)
    ensures
        r == is_blank(c),
{
    c == ' ' || c == '\t' || c == '\n' || c == '\r' || c == '\x0b' || c == '\x0c'
}

fn scan_hex(s: &Vec<char>, i: usize) -> (r: usize)
    requires
        i <= s.len(),
    ensures
        r as int == hex_end(s@, i as int),
        i <= r <= s.len(),
{
    let mut j = i;
    while j < s.len() && hex_char(s[j])
        invariant
            i <= j <= s.len(),
            hex_end(s@, j as int) == hex_end(s@, i as int),
        decreases s.len() - j,
    {
        j = j + 1;
    }
    j
}

fn scan_digits(s: &Vec<char>, i: usize) -> (r: usize)
    requires
        i <= s.len(),
    ensures
        r as int == digit_end(s@, i as int),
        i <= r <= s.len(),
{
    let mut j = i;
    while j < s.len() && digit_char(s[j])
        invariant
            i <= j <= s.len(),
            digit_end(s@, j as int) == digit_end(s@, i as int),
        decreases s.len() - j,
    {
        j = j + 1;
    }
    j
}

fn scan_digits_back(s: &Vec<char>, j: usize) -> (r: usize)
    requires
        j <= s.len(),
    ensures
        r as int == digit_start(s@, j as int),
        r <= j,
{
    let mut k = j;
    while k > 0 && digit_char(s[k - 1])
        invariant
            k <= j <= s.len(),
            digit_start(s@, k as int) == digit_start(s@, j as int),
        decreases k,
    {
        k = k - 1;
    }
    k
}

fn scan_open_paren(s: &Vec<char>, i: usize) -> (r: usize)
    requires
        i <= s.len(),
    ensures
        r as int == open_paren_from(s@, i as int),
        i <= r <= s.len(),
{
    let mut j = i;
    while j < s.len() && s[j] != '('
        invariant
            i <= j <= s.len(),
            open_paren_from(s@, j as int) == open_paren_from(s@, i as int),
        decreases s.len() - j,
    {
        j = j + 1;
    }
    j
}

fn copy_range(s: &Vec<char>, from: usize, to: usize) -> (r: Vec<char>)
    requires
        from <= to <= s.len(),
    ensures
        r@ == s@.subrange(from as int, to as int),
{
    let mut r: Vec<char> = Vec::new();
    let mut k = from;
    while k < to
        invariant
            from <= k <= to <= s.len(),
            r@ == s@.subrange(from as int, k as int),
        decreases to - k,
    {
        r.push(s[k]);
        k = k + 1;
        assert(r@ =~= s@.subrange(from as int, k as int));
    }
    r
}

/// Parses one line of the candidate tool's output into its revision id.
pub fn parse_candidate_line(line: &Vec<char>) -> (r: Option<Vec<char>>)
    ensures
        r matches Some(v) ==> candidate_revision(line@) == Some(v@),
        r is None ==> candidate_revision(line@) is None,
{
    let n = line.len();
    let a = scan_hex(line, 0);
    if a == 0 || a >= n || line[a] != ' ' {
        return None;
    }
    let b = scan_digits(line, a + 1);
    if b <= a + 1 || b >= n || line[b] != ' ' {
        return None;
    }
    let c = scan_digits(line, b + 1);
    if c <= b + 1 || c >= n || line[c] != ' ' {
        return None;
    }
    Some(copy_range(line, 0, a))
}

fn file_field_check(s: &Vec<char>, from: usize, p: usize) -> (r: bool)
    requires
        from <= p <= s.len(),
    ensures
        r == file_field_ok(s@, from as int, p as int),
{
    if p == from {
        return true;
    }
    if p - from < 2 || !blank_char(s[p - 1]) {
        return false;
    }
    let mut k = from;
    while k < p
        invariant
            from <= k <= p <= s.len(),
            forall|m: int| from <= m < k ==> !is_paren_or_caret(#[trigger] s@[m]),
        decreases p - k,
    {
        if s[k] == '(' || s[k] == ')' || s[k] == '^' {
            return false;
        }
        k = k + 1;
    }
    true
}

fn closes_at(s: &Vec<char>, p: usize, q: usize) -> (r: bool)
    requires
        p < q < s.len(),
    ensures
        r == closes_annotation(s@, p as int, q as int),
{
    if q + 1 >= s.len() || s[q] != ')' || s[q + 1] != ' ' {
        return false;
    }
    let d = scan_digits_back(s, q);
    d < q && p + 2 <= d && s[d - 1] == ' '
}

/// Parses one line of the reference tool's output into its revision id.
#[verifier::loop_isolation(false)]
pub fn parse_reference_line(line: &Vec<char>) -> (r: Option<Vec<char>>)
    ensures
        r matches Some(v) ==> reference_revision(line@) == Some(v@),
        r is None ==> reference_revision(line@) is None,
{
    let n = line.len();
    let h: usize = if n > 0 && line[0] == '^' { 1 } else { 0 };
    let a = scan_hex(line, h);
    if a <= h || a >= n || line[a] != ' ' {
        return None;
    }
    let p = scan_open_paren(line, a + 1);
    if p >= n || !file_field_check(line, a + 1, p) {
        return None;
    }
    let mut q = p + 1;
    while q < n
        invariant
            p < q <= n == line.len(),
            forall|k: int| p < k < q ==> !closes_annotation(line@, p as int, k),
        decreases n - q,
    {
        if closes_at(line, p, q) {
            assert(closes_annotation(line@, p as int, q as int));
            return Some(copy_range(line, h, a));
        }
        q = q + 1;
    }
    assert forall|k: int| !closes_annotation(line@, p as int, k) by {
        if p < k < n {
        }
    }
    None
}

/// Parses one line of the given tool's output into its revision id.
pub fn parse_line(kind: ExecutableKind, line: &Vec<char>) -> (r: Option<Vec<char>>)
    ensures
        r matches Some(v) ==> revision_of(kind, line@) == Some(v@) && is_revision_id(v@),
        r is None ==> revision_of(kind, line@) is None,
{
    proof {
        lemma_revision_is_hex(kind, line@);
    }
    match kind {
        ExecutableKind::ReferenceTool => parse_reference_line(line),
        ExecutableKind::CandidateTool => parse_candidate_line(line),
    }
}

/// `p` without the `/` characters at its end.
pub open spec fn trim_trailing_slashes(p: Seq<char>) -> Seq<char>
    decreases p.len(),
{
    if p.len() > 0 && p.last() == '/' {
        trim_trailing_slashes(p.drop_last())
    } else {
        p
    }
}

/// The part of `p` after its last `/` (all of `p` if it has none).
pub open spec fn after_last_slash(p: Seq<char>) -> Seq<char>
    decreases p.len(),
{
    if p.len() == 0 || p.last() == '/' {
        Seq::empty()
    } else {
        after_last_slash(p.drop_last()).push(p.last())
    }
}

/// The final segment of a path; a trailing `/` does not start a new segment.
pub open spec fn file_name_of(path: Seq<char>) -> Seq<char> {
    after_last_slash(trim_trailing_slashes(path))
}

/// The tool that an executable's file name designates, if any.
pub open spec fn kind_named(name: Seq<char>) -> Option<ExecutableKind> {
    if name == seq!['g', 'i', 't'] {
        Some(ExecutableKind::ReferenceTool)
    } else if name == seq!['g', 'i', 'x'] {
        Some(ExecutableKind::CandidateTool)
    } else {
        None
    }
}

/// Resolves an executable's path to the tool whose line format its output has,
/// looking only at the final path segment: `git` or `gix`.
pub fn kind_for_executable(path: &str) -> (r: Result<ExecutableKind, UnrecognizedExecutable>)
    ensures
        r matches Ok(k) ==> kind_named(file_name_of(path@)) == Some(k),
        r is Err ==> kind_named(file_name_of(path@)) is None,
{
    let p = chars_of(path);
    let mut end = p.len();
    assert(p@.take(p.len() as int) =~= p@);
    while end > 0 && p[end - 1] == '/'
        invariant
            end <= p.len(),
            p@ == path@,
            trim_trailing_slashes(p@) == trim_trailing_slashes(p@.take(end as int)),
        decreases end,
    {
        assert(p@.take(end as int).drop_last() =~= p@.take(end - 1));
        end = end - 1;
    }
    assert(p@.take(p.len() as int) =~= p@);
    let ghost trimmed = p@.take(end as int);
    let mut start = end;
    while start > 0 && p[start - 1] != '/'
        invariant
            start <= end <= p.len(),
            trimmed == p@.take(end as int),
            after_last_slash(trimmed) == after_last_slash(p@.take(start as int)) + p@.subrange(
                start as int,
                end as int,
            ),
        decreases start,
    {
        assert(p@.take(start as int).drop_last() =~= p@.take(start - 1));
        assert(p@.subrange(start - 1, end as int) =~= seq![p@[start - 1]] + p@.subrange(
            start as int,
            end as int,
        ));
        assert(after_last_slash(p@.take(start as int)) == after_last_slash(p@.take(start - 1)).push(
            p@[start - 1],
        ));
        assert(after_last_slash(p@.take(start - 1)).push(p@[start - 1]) + p@.subrange(
            start as int,
            end as int,
        ) =~= after_last_slash(p@.take(start - 1)) + p@.subrange(start - 1, end as int));
        start = start - 1;
    }
    let ghost name = p@.subrange(start as int, end as int);
    assert(after_last_slash(p@.take(start as int)) + name =~= name);
    if end - start == 3 && p[start] == 'g' && p[start + 1] == 'i' {
        if p[start + 2] == 't' {
            assert(name =~= seq!['g', 'i', 't']);
            return Ok(ExecutableKind::ReferenceTool);
        } else if p[start + 2] == 'x' {
            assert(name =~= seq!['g', 'i', 'x']);
            return Ok(ExecutableKind::CandidateTool);
        }
    }
    proof {
        if name == seq!['g', 'i', 't'] || name == seq!['g', 'i', 'x'] {
            assert(name.len() == 3 && name[0] == 'g' && name[1] == 'i');
        }
    }
    Err(UnrecognizedExecutable)
}

} // verus!
