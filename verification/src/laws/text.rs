use crate::text::{joined, replaced, trimmed, trimmed_back, trimmed_front, white_space};
use crate::title::{display_title, nonempty};
use crate::workspace::{
    ascii_lower, is_claw, is_separator, last_segment, same_ignoring_ascii_case,
    without_trailing_separators,
};
use vstd::prelude::*;

verus! {

/// How much white space a text begins with.
pub proof fn lemma_trimmed_front(s: Seq<char>) -> (cut: int)
    ensures
        0 <= cut <= s.len(),
        trimmed_front(s) == s.skip(cut),
        forall|i: int| 0 <= i < cut ==> white_space(#[trigger] s[i]),
        cut < s.len() ==> !white_space(s[cut]),
    decreases s.len(),
{
    if s.len() > 0 && white_space(s.first()) {
        let rest = s.drop_first();
        let cut = lemma_trimmed_front(rest);
        assert(rest.skip(cut) =~= s.skip(cut + 1));
        assert forall|i: int| 0 <= i < cut + 1 implies white_space(#[trigger] s[i]) by {
            if i > 0 {
                assert(rest[i - 1] == s[i]);
            }
        }
        if cut + 1 < s.len() {
            assert(rest[cut] == s[cut + 1]);
        }
        cut + 1
    } else {
        assert(s.skip(0) =~= s);
        0
    }
}

/// Where the white space at the end of a text begins.
pub proof fn lemma_trimmed_back(s: Seq<char>) -> (end: int)
    ensures
        0 <= end <= s.len(),
        trimmed_back(s) == s.take(end),
        forall|i: int| end <= i < s.len() ==> white_space(#[trigger] s[i]),
        end > 0 ==> !white_space(s[end - 1]),
    decreases s.len(),
{
    if s.len() > 0 && white_space(s.last()) {
        let rest = s.drop_last();
        let end = lemma_trimmed_back(rest);
        assert(rest.take(end) =~= s.take(end));
        assert forall|i: int| end <= i < s.len() implies white_space(#[trigger] s[i]) by {
            if i < rest.len() {
                assert(rest[i] == s[i]);
            }
        }
        end
    } else {
        assert(s.take(s.len() as int) =~= s);
        s.len() as int
    }
}

/// A text that has been trimmed neither begins nor ends with white space, and to
/// trim it again changes nothing.
pub proof fn trimmed_text_has_no_margin(s: Seq<char>)
    ensures
        trimmed(s).len() > 0 ==> !white_space(trimmed(s).first()) && !white_space(
            trimmed(s).last(),
        ),
        trimmed(trimmed(s)) == trimmed(s),
{
    let cut = lemma_trimmed_front(s);
    let front = trimmed_front(s);
    let end = lemma_trimmed_back(front);
    let t = trimmed(s);
    if t.len() > 0 {
        assert(t.first() == s[cut]);
        assert(t.last() == front[end - 1]);
    }
}

/// The name under which a session is shown is never blank: it is the custom title
/// where that says something, else the title where that does, else a placeholder.
pub proof fn display_title_is_never_blank(
    title: Option<Seq<char>>,
    custom_title: Option<Seq<char>>,
)
    ensures
        display_title(title, custom_title).len() > 0,
        nonempty(custom_title) matches Some(custom) ==> display_title(title, custom_title) == custom,
        nonempty(custom_title) is None ==> (nonempty(title) matches Some(plain) ==> display_title(
            title,
            custom_title,
        ) == plain),
{
    reveal_strlit("(无标题)");
}

/// Whether a text is all white space.
pub open spec fn is_blank(s: Seq<char>) -> bool {
    forall|i: int| 0 <= i < s.len() ==> white_space(#[trigger] s[i])
}

/// Whether an optional text says something: it is there and is not all white space.
pub open spec fn says_something(text: Option<Seq<char>>) -> bool {
    match text {
        Some(s) => !is_blank(s),
        None => false,
    }
}

/// A session is shown under its whole custom title but for the white space around
/// it, where that says something; else under its whole title but for the white
/// space around it, where that does; else under a placeholder.
pub proof fn session_is_shown_by_its_title(
    title: Option<Seq<char>>,
    custom_title: Option<Seq<char>>,
)
    ensures
        says_something(custom_title) ==> display_title(title, custom_title) == trimmed(
            custom_title->0,
        ),
        !says_something(custom_title) && says_something(title) ==> display_title(
            title,
            custom_title,
        ) == trimmed(title->0),
        !says_something(custom_title) && !says_something(title) ==> display_title(
            title,
            custom_title,
        ) == "(无标题)"@,
        nonempty(title) is Some <==> says_something(title),
        says_something(title) ==> nonempty(title) == Some(trimmed(title->0)),
{
    if let Some(s) = title {
        lemma_says_something(s);
    }
    if let Some(s) = custom_title {
        lemma_says_something(s);
    }
}

proof fn lemma_says_something(s: Seq<char>)
    ensures
        says_something(Some(s)) <==> trimmed(s).len() > 0,
{
    let margins = trimmed_is_the_middle(s);
    let t = trimmed(s);
    if t.len() > 0 {
        let first = margins.0.len() as int;
        assert(s.len() == margins.0.len() + t.len() + margins.1.len());
        assert(s[first] == t.first());
        assert(!white_space(s[first]));
    } else {
        assert(s =~= margins.0 + margins.1);
        assert forall|i: int| 0 <= i < s.len() implies white_space(#[trigger] s[i]) by {
            if i < margins.0.len() {
                assert(s[i] == margins.0[i]);
            } else {
                assert(s[i] == margins.1[i - margins.0.len()]);
            }
        }
    }
}

/// A name behind a separator is the last segment.
pub proof fn lemma_last_segment_behind(front: Seq<char>, name: Seq<char>)
    requires
        front.len() > 0 ==> is_separator(front.last()),
        forall|i: int| 0 <= i < name.len() ==> !is_separator(#[trigger] name[i]),
    ensures
        last_segment(front + name) == name,
    decreases name.len(),
{
    let s = front + name;
    if name.len() > 0 {
        assert(s.last() == name.last());
        assert(s.drop_last() =~= front + name.drop_last());
        lemma_last_segment_behind(front, name.drop_last());
        assert(name.drop_last().push(name.last()) =~= name);
    } else {
        assert(s =~= front);
    }
}

/// Whether a workspace is a Claw workspace is told by its last folder alone,
/// whatever the folders above it and whichever separator stands before it.
pub proof fn claw_is_told_by_the_last_folder(above: Seq<char>, separator: char, name: Seq<char>)
    requires
        is_separator(separator),
        name.len() > 0,
        forall|i: int| 0 <= i < name.len() ==> !is_separator(#[trigger] name[i]),
        !white_space(name.last()),
    ensures
        is_claw(above.push(separator) + name) == same_ignoring_ascii_case(name, "claw"@),
{
    let s = above.push(separator) + name;
    let cut = lemma_trimmed_front(s);
    assert(s[above.len() as int] == separator);
    assert(cut <= above.len());
    let front = s.skip(cut);
    assert(front.last() == name.last());
    assert(trimmed(s) == front);
    assert(without_trailing_separators(front) == front) by {
        assert(!is_separator(name[name.len() - 1]));
    }
    let before = above.push(separator).skip(cut);
    assert(front =~= before + name);
    assert(before.last() == separator);
    lemma_last_segment_behind(before, name);
}

proof fn lemma_ends_blank(s: Seq<char>)
    requires
        s.len() > 0,
        white_space(s.last()),
    ensures
        !same_ignoring_ascii_case(last_segment(s), "claw"@),
{
    let name = last_segment(s);
    assert(name.last() == s.last());
    reveal_strlit("claw");
    if same_ignoring_ascii_case(name, "claw"@) {
        assert(ascii_lower(name[3]) == ascii_lower("claw"@[3]));
    }
}

/// A separator at the end does not change whether a workspace is a Claw workspace,
/// but for one that is and has white space at its end: white space before a
/// separator belongs to the name of a folder.
pub proof fn trailing_separator_does_not_matter_for_claw(cwd: Seq<char>, separator: char)
    requires
        is_separator(separator),
        cwd.len() == 0 || !white_space(cwd.last()) || !is_claw(cwd),
    ensures
        is_claw(cwd.push(separator)) == is_claw(cwd),
{
    let s = cwd.push(separator);
    let cut = lemma_trimmed_front(cwd);
    let longer_cut = lemma_trimmed_front(s);
    assert(longer_cut <= cwd.len()) by {
        assert(s[cwd.len() as int] == separator);
    }
    if longer_cut > cut {
        assert(s[cut] == cwd[cut]);
    }
    if longer_cut < cut {
        assert(s[longer_cut] == cwd[longer_cut]);
    }
    assert(longer_cut == cut);
    let short = cwd.skip(cut);
    let long = s.skip(cut);
    assert(long =~= short.push(separator));
    assert(trimmed(s) == long);
    assert(long.drop_last() =~= short);
    assert(without_trailing_separators(long) == without_trailing_separators(short));
    if short.len() == 0 {
        assert(trimmed(cwd) == short);
    } else if white_space(cwd.last()) {
        assert(short.last() == cwd.last());
        lemma_ends_blank(short);
    } else {
        assert(short.last() == cwd.last());
        assert(trimmed(cwd) == short);
    }
}

/// To replace what does not occur changes nothing.
pub proof fn nothing_to_replace(s: Seq<char>, from: Seq<char>, to: Seq<char>)
    requires
        from.len() > 0,
        forall|i: int| 0 <= i <= s.len() ==> !from.is_prefix_of(#[trigger] s.skip(i)),
    ensures
        replaced(s, from, to) == s,
    decreases s.len(),
{
    if s.len() >= from.len() {
        assert(s.skip(0) =~= s);
        let rest = s.drop_first();
        assert forall|i: int| 0 <= i <= rest.len() implies !from.is_prefix_of(
            #[trigger] rest.skip(i),
        ) by {
            assert(rest.skip(i) =~= s.skip(i + 1));
        }
        nothing_to_replace(rest, from, to);
        assert(seq![s.first()] + rest =~= s);
    }
}

/// Whether `from` stands in `s` at `at`.
pub open spec fn occurs_at(s: Seq<char>, from: Seq<char>, at: int) -> bool {
    0 <= at && at + from.len() <= s.len() && s.subrange(at, at + from.len()) == from
}

proof fn lemma_occurs(s: Seq<char>, from: Seq<char>, at: int)
    requires
        0 <= at <= s.len(),
    ensures
        occurs_at(s, from, at) <==> from.is_prefix_of(s.skip(at)),
{
    if at + from.len() <= s.len() {
        assert(s.skip(at).subrange(0, from.len() as int) =~= s.subrange(at, at + from.len()));
    }
}

proof fn lemma_occurs_behind(front: Seq<char>, s: Seq<char>, from: Seq<char>, at: int)
    requires
        0 <= at,
    ensures
        occurs_at(front + s, from, front.len() + at) <==> occurs_at(s, from, at),
{
    let whole = front + s;
    let there = front.len() + at;
    if at + from.len() <= s.len() {
        assert(whole.subrange(there, there + from.len()) =~= s.subrange(at, at + from.len()));
    }
}

/// The first match is replaced, and the replacing goes on behind it: what stands
/// before it stays, and every later match is dealt with in the same way.
pub proof fn first_match_is_replaced(
    before: Seq<char>,
    from: Seq<char>,
    behind: Seq<char>,
    to: Seq<char>,
)
    requires
        from.len() > 0,
        forall|at: int| 0 <= at < before.len() ==> !occurs_at(before + from + behind, from, at),
    ensures
        replaced(before + from + behind, from, to) == before + to + replaced(behind, from, to),
    decreases before.len(),
{
    let s = before + from + behind;
    if before.len() == 0 {
        assert(s =~= from + behind);
        assert(occurs_at(s, from, 0)) by {
            assert(s.subrange(0, from.len() as int) =~= from);
        }
        lemma_occurs(s, from, 0);
        assert(s.skip(0) =~= s);
        assert(s.skip(from.len() as int) =~= behind);
        assert(before + to + replaced(behind, from, to) =~= to + replaced(behind, from, to));
    } else {
        let rest = before.drop_first();
        let shorter = rest + from + behind;
        let front = seq![before.first()];
        assert(s =~= front + shorter);
        assert(s.drop_first() =~= shorter);
        assert forall|at: int| 0 <= at < rest.len() implies !occurs_at(shorter, from, at) by {
            lemma_occurs_behind(front, shorter, from, at);
            assert(!occurs_at(s, from, at + 1));
        }
        first_match_is_replaced(rest, from, behind, to);
        assert(!occurs_at(s, from, 0));
        lemma_occurs(s, from, 0);
        assert(s.skip(0) =~= s);
        assert(front + (rest + to + replaced(behind, from, to)) =~= before + to + replaced(
            behind,
            from,
            to,
        ));
    }
}

/// A text in which nothing matches stays as it is.
pub proof fn text_without_a_match_stays(s: Seq<char>, from: Seq<char>, to: Seq<char>)
    requires
        from.len() > 0,
        forall|at: int| !occurs_at(s, from, at),
    ensures
        replaced(s, from, to) == s,
{
    assert forall|i: int| 0 <= i <= s.len() implies !from.is_prefix_of(#[trigger] s.skip(i)) by {
        lemma_occurs(s, from, i);
    }
    nothing_to_replace(s, from, to);
}

/// The place of the first match, where there is one.
proof fn lemma_first_match(s: Seq<char>, from: Seq<char>) -> (at: Option<int>)
    ensures
        match at {
            Some(at) => occurs_at(s, from, at) && forall|i: int|
                0 <= i < at ==> !occurs_at(s, from, i),
            None => forall|i: int| !occurs_at(s, from, i),
        },
    decreases s.len(),
{
    if occurs_at(s, from, 0) {
        Some(0)
    } else if s.len() == 0 {
        assert(forall|i: int| i > 0 ==> !occurs_at(s, from, i));
        None
    } else {
        let front = seq![s.first()];
        let rest = s.drop_first();
        assert(s =~= front + rest);
        let later = lemma_first_match(rest, from);
        assert forall|i: int| i >= 0 implies occurs_at(s, from, i + 1) == occurs_at(
            rest,
            from,
            i,
        ) by {
            lemma_occurs_behind(front, rest, from, i);
        }
        match later {
            Some(at) => {
                assert(occurs_at(s, from, at + 1));
                assert forall|i: int| 0 <= i < at + 1 implies !occurs_at(s, from, i) by {
                    if i > 0 {
                        assert(!occurs_at(rest, from, i - 1));
                        assert(occurs_at(s, from, (i - 1) + 1) == occurs_at(rest, from, i - 1));
                    }
                }
                Some(at + 1)
            },
            None => {
                assert forall|i: int| !occurs_at(s, from, i) by {
                    if i > 0 {
                        assert(!occurs_at(rest, from, i - 1));
                        assert(occurs_at(s, from, (i - 1) + 1) == occurs_at(rest, from, i - 1));
                    }
                }
                None
            },
        }
    }
}

/// Whether `from` occurs nowhere in or across the edges of `to`, whatever stands
/// around it.
pub open spec fn touches_nowhere(from: Seq<char>, to: Seq<char>) -> bool {
    forall|before: Seq<char>, behind: Seq<char>, at: int| #[trigger]
        occurs_at(before + to + behind, from, at) ==> at + from.len() <= before.len() || at
            >= before.len() + to.len()
}

/// All matches are replaced: where the text that is put in gives rise to no match
/// of its own, there is none left.
pub proof fn no_match_is_left(s: Seq<char>, from: Seq<char>, to: Seq<char>, at: int)
    requires
        from.len() > 0,
        touches_nowhere(from, to),
    ensures
        !occurs_at(replaced(s, from, to), from, at),
    decreases s.len(),
{
    match lemma_first_match(s, from) {
        None => {
            text_without_a_match_stays(s, from, to);
        },
        Some(first) => {
            let before = s.take(first);
            let behind = s.skip(first + from.len());
            let rest = replaced(behind, from, to);
            assert(s =~= before + from + behind) by {
                assert(s.subrange(first, first + from.len()) == from);
            }
            first_match_is_replaced(before, from, behind, to);
            let result = before + to + rest;
            if occurs_at(result, from, at) {
                if at + from.len() <= before.len() {
                    assert(result.subrange(at, at + from.len()) =~= s.subrange(
                        at,
                        at + from.len(),
                    ));
                    assert(occurs_at(s, from, at));
                } else {
                    let later = at - before.len() - to.len();
                    lemma_occurs_behind(before + to, rest, from, later);
                    no_match_is_left(behind, from, to, later);
                }
            }
        },
    }
}

/// To replace in a text that is pieces with matches between them is to put the new
/// text between the pieces, where the matches are the leftmost ones: each begins
/// where none has begun before.
pub proof fn matches_between_pieces_are_replaced(
    pieces: Seq<Seq<char>>,
    from: Seq<char>,
    to: Seq<char>,
)
    requires
        from.len() > 0,
        pieces.len() > 0,
        forall|k: int, at: int|
            0 <= k < pieces.len() && 0 <= at < pieces[k].len() ==> !#[trigger] occurs_at(
                joined(pieces.skip(k), from),
                from,
                at,
            ),
    ensures
        replaced(joined(pieces, from), from, to) == joined(pieces, to),
    decreases pieces.len(),
{
    assert(pieces.skip(0) =~= pieces);
    if pieces.len() == 1 {
        let only = pieces[0];
        assert forall|at: int| !occurs_at(only, from, at) by {
            if 0 <= at < only.len() {
                assert(!occurs_at(joined(pieces.skip(0), from), from, at));
            }
        }
        text_without_a_match_stays(only, from, to);
    } else {
        let rest = pieces.drop_first();
        let first = pieces[0];
        let head = seq![first];
        assert(pieces =~= head + rest);
        joined_parts_are_joined(head, rest, from);
        joined_parts_are_joined(head, rest, to);
        assert forall|k: int, at: int|
            0 <= k < rest.len() && 0 <= at < rest[k].len() implies !#[trigger] occurs_at(
            joined(rest.skip(k), from),
            from,
            at,
        ) by {
            assert(rest.skip(k) =~= pieces.skip(k + 1));
            assert(rest[k] == pieces[k + 1]);
            assert(!occurs_at(joined(pieces.skip(k + 1), from), from, at));
        }
        matches_between_pieces_are_replaced(rest, from, to);
        let behind = joined(rest, from);
        assert(joined(pieces, from) == first + from + behind);
        assert forall|at: int| 0 <= at < first.len() implies !occurs_at(
            first + from + behind,
            from,
            at,
        ) by {
            assert(!occurs_at(joined(pieces.skip(0), from), from, at));
        }
        first_match_is_replaced(first, from, behind, to);
    }
}

/// The empty text matches before every character and at the end.
pub proof fn empty_match_is_everywhere(s: Seq<char>, c: char, to: Seq<char>)
    ensures
        replaced(Seq::empty(), Seq::empty(), to) == to,
        replaced(s.push(c), Seq::empty(), to) == replaced(s, Seq::empty(), to).push(c) + to,
    decreases s.len(),
{
    if s.len() == 0 {
        let one = s.push(c);
        assert(one.drop_first() =~= Seq::empty());
        assert(replaced(one.drop_first(), Seq::empty(), to) == to);
        assert(replaced(s, Seq::empty(), to) == to);
        assert(to + seq![c] + to =~= to.push(c) + to);
    } else {
        let rest = s.drop_first();
        empty_match_is_everywhere(rest, c, to);
        assert(s.push(c).drop_first() =~= rest.push(c));
        let later = replaced(rest, Seq::empty(), to);
        assert(to + seq![s.first()] + (later.push(c) + to) =~= (to + seq![s.first()] + later).push(
            c,
        ) + to);
    }
}

/// Lists that are strung together are strung together: one after the other, with
/// the separator between them. One text alone is itself, and none is nothing.
pub proof fn joined_parts_are_joined(
    one: Seq<Seq<char>>,
    other: Seq<Seq<char>>,
    sep: Seq<char>,
)
    ensures
        joined(Seq::empty(), sep) == Seq::<char>::empty(),
        one.len() == 1 ==> joined(one, sep) == one[0],
        one.len() > 0 && other.len() > 0 ==> joined(one + other, sep) == joined(one, sep) + sep
            + joined(other, sep),
    decreases other.len(),
{
    if one.len() > 0 && other.len() > 0 {
        let whole = one + other;
        assert(whole.last() == other.last());
        assert(whole.drop_last() =~= one + other.drop_last());
        if other.len() == 1 {
            assert(whole.drop_last() =~= one);
        } else {
            let front = other.drop_last();
            joined_parts_are_joined(one, front, sep);
            assert(joined(one, sep) + sep + joined(front, sep) + sep + other.last() =~= joined(
                one,
                sep,
            ) + sep + (joined(front, sep) + sep + other.last()));
        }
    }
}

/// To trim a text is to take white space from its two ends and nothing else.
pub proof fn trimmed_is_the_middle(s: Seq<char>) -> (margins: (Seq<char>, Seq<char>))
    ensures
        s == margins.0 + trimmed(s) + margins.1,
        forall|i: int| 0 <= i < margins.0.len() ==> white_space(#[trigger] margins.0[i]),
        forall|i: int| 0 <= i < margins.1.len() ==> white_space(#[trigger] margins.1[i]),
        trimmed(s).len() > 0 ==> !white_space(trimmed(s).first()) && !white_space(
            trimmed(s).last(),
        ),
{
    trimmed_text_has_no_margin(s);
    let cut = lemma_trimmed_front(s);
    let front = trimmed_front(s);
    let end = lemma_trimmed_back(front);
    let margins = (s.take(cut), front.skip(end));
    assert(s =~= margins.0 + trimmed(s) + margins.1);
    assert forall|i: int| 0 <= i < margins.1.len() implies white_space(
        #[trigger] margins.1[i],
    ) by {
        assert(margins.1[i] == front[end + i]);
    }
    margins
}

} // verus!
