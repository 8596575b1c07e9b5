use crate::text::{chars_of, trimmed};
use vstd::prelude::*;

verus! {

/// What parts the segments of a working directory, on any system.
pub open spec fn is_separator(c: char) -> bool {
    c == '/' || c == '\\'
}

/// `s` without the separators at its end.
pub open spec fn without_trailing_separators(s: Seq<char>) -> Seq<char>
    decreases s.len(),
{
    if s.len() > 0 && is_separator(s.last()) {
        without_trailing_separators(s.drop_last())
    } else {
        s
    }
}

/// What stands behind the last separator of `s`, or all of `s`.
pub open spec fn last_segment(s: Seq<char>) -> Seq<char>
    decreases s.len(),
{
    if s.len() == 0 || is_separator(s.last()) {
        Seq::empty()
    } else {
        last_segment(s.drop_last()).push(s.last())
    }
}

/// `c` with `A` to `Z` turned to lower case.
pub open spec fn ascii_lower(c: char) -> char {
    if 'A' <= c <= 'Z' {
        (c as int + 32) as char
    } else {
        c
    }
}

/// Whether two texts are the same but for the case of ASCII letters.
pub open spec fn same_ignoring_ascii_case(a: Seq<char>, b: Seq<char>) -> bool {
    &&& a.len() == b.len()
    &&& forall|i: int| 0 <= i < a.len() ==> ascii_lower(#[trigger] a[i]) == ascii_lower(b[i])
}

/// Whether `cwd` is a Claw workspace: its last folder is called "claw" in any case.
pub open spec fn is_claw(cwd: Seq<char>) -> bool {
    same_ignoring_ascii_case(
        last_segment(without_trailing_separators(trimmed(cwd))),
        "claw"@,
    )
}

proof fn lemma_last_segment(s: Seq<char>, start: int)
    requires
        0 <= start <= s.len(),
        start > 0 ==> is_separator(s[start - 1]),
        forall|i: int| start <= i < s.len() ==> !is_separator(#[trigger] s[i]),
    ensures
        last_segment(s) == s.skip(start),
    decreases s.len(),
{
    if start < s.len() {
        lemma_last_segment(s.drop_last(), start);
        assert(s.drop_last().skip(start).push(s.last()) =~= s.skip(start));
    } else {
        assert(s.skip(start) =~= Seq::empty());
    }
}

proof fn lemma_ascii_lower(c: char, lower: char, upper: char)
    requires
        'a' <= lower <= 'z',
        lower as int == upper as int + 32,
    ensures
        ascii_lower(lower) == lower,
        ascii_lower(c) == lower <==> (c == lower || c == upper),
{
}

/// Claw is an instant-messaging workspace bound to its account: a session that
/// lives in it is of no use to another account.
pub fn is_claw_workspace(cwd: &str) -> (res: bool)
    ensures
        res == is_claw(cwd@),
{
    let chars: Vec<char> = chars_of(cwd.trim());
    let ghost whole = chars@;
    let mut end: usize = chars.len();
    assert(whole.take(end as int) == whole);
    while end > 0 && (chars[end - 1] == '/' || chars[end - 1] == '\\')
        invariant
            end <= chars.len(),
            chars@ == whole,
            without_trailing_separators(whole) == without_trailing_separators(whole.take(end as int)),
        decreases end,
    {
        assert(whole.take(end as int).drop_last() == whole.take(end - 1));
        end -= 1;
    }
    let ghost path = whole.take(end as int);
    assert(without_trailing_separators(whole) == path);
    let mut start: usize = end;
    while start > 0 && chars[start - 1] != '/' && chars[start - 1] != '\\'
        invariant
            start <= end <= chars.len(),
            chars@ == whole,
            path == whole.take(end as int),
            forall|i: int| start <= i < end ==> !is_separator(#[trigger] path[i]),
        decreases start,
    {
        start -= 1;
    }
    proof {
        lemma_last_segment(path, start as int);
        reveal_strlit("claw");
        lemma_ascii_lower('c', 'c', 'C');
        lemma_ascii_lower('l', 'l', 'L');
        lemma_ascii_lower('a', 'a', 'A');
        lemma_ascii_lower('w', 'w', 'W');
    }
    if end - start != 4 {
        return false;
    }
    let c: char = chars[start];
    let l: char = chars[start + 1];
    let a: char = chars[start + 2];
    let w: char = chars[start + 3];
    proof {
        let name = last_segment(path);
        assert(name.len() == 4);
        assert(name[0] == c && name[1] == l && name[2] == a && name[3] == w);
        lemma_ascii_lower(c, 'c', 'C');
        lemma_ascii_lower(l, 'l', 'L');
        lemma_ascii_lower(a, 'a', 'A');
        lemma_ascii_lower(w, 'w', 'W');
    }
    (c == 'c' || c == 'C') && (l == 'l' || l == 'L') && (a == 'a' || a == 'A') && (w == 'w' || w
        == 'W')
}

} // verus!
