use vstd::prelude::*;
use vstd::string::*;

verus! {

/// The characters that Unicode gives the property `White_Space`.
pub open spec fn white_space(c: char) -> bool {
    ||| '\u{9}' <= c <= '\u{d}'
    ||| c == ' '
    ||| c == '\u{85}'
    ||| c == '\u{a0}'
    ||| c == '\u{1680}'
    ||| '\u{2000}' <= c <= '\u{200a}'
    ||| c == '\u{2028}'
    ||| c == '\u{2029}'
    ||| c == '\u{202f}'
    ||| c == '\u{205f}'
    ||| c == '\u{3000}'
}

/// `s` without its leading white space.
pub open spec fn trimmed_front(s: Seq<char>) -> Seq<char>
    decreases s.len(),
{
    if s.len() > 0 && white_space(s.first()) {
        trimmed_front(s.drop_first())
    } else {
        s
    }
}

/// `s` without its trailing white space.
pub open spec fn trimmed_back(s: Seq<char>) -> Seq<char>
    decreases s.len(),
{
    if s.len() > 0 && white_space(s.last()) {
        trimmed_back(s.drop_last())
    } else {
        s
    }
}

/// `s` without the white space around it.
pub open spec fn trimmed(s: Seq<char>) -> Seq<char> {
    trimmed_back(trimmed_front(s))
}

/// `str::trim`: the slice without its leading and trailing white space, where
/// white space is what has Unicode's property `White_Space`.
pub assume_specification[ str::trim ](s: &str) -> (res: &str)
    ensures
        res@ == trimmed(s@),
;

/// The characters of `s`, in order.
pub fn chars_of(s: &str) -> (chars: Vec<char>)
    ensures
        chars@ == s@,
{
    let mut chars: Vec<char> = Vec::new();
    for c in it: s.chars()
        invariant
            it.seq() == s@,
            chars@ == s@.take(it.index() as int),
    {
        chars.push(c);
    }
    chars
}

/// Whether two texts are the same.
pub fn same_text(a: &str, b: &str) -> (res: bool)
    ensures
        res == (a@ == b@),
{
    a.to_string() == b.to_string()
}

/// Every occurrence of a non-empty `from` in `s` replaced by `to`, taken from
/// the left, none overlapping another.
pub open spec fn replaced_nonempty(s: Seq<char>, from: Seq<char>, to: Seq<char>) -> Seq<char>
    recommends
        from.len() > 0,
    decreases s.len(),
{
    if from.len() == 0 || s.len() < from.len() {
        s
    } else if from.is_prefix_of(s) {
        to + replaced_nonempty(s.skip(from.len() as int), from, to)
    } else {
        seq![s.first()] + replaced_nonempty(s.drop_first(), from, to)
    }
}

/// `to` before every character of `s` and once more behind the last one.
pub open spec fn interspersed(s: Seq<char>, to: Seq<char>) -> Seq<char>
    decreases s.len(),
{
    if s.len() == 0 {
        to
    } else {
        to + seq![s.first()] + interspersed(s.drop_first(), to)
    }
}

/// `s` with every match of `from` replaced by `to`. The empty text matches
/// before every character and at the end.
pub open spec fn replaced(s: Seq<char>, from: Seq<char>, to: Seq<char>) -> Seq<char> {
    if from.len() == 0 {
        interspersed(s, to)
    } else {
        replaced_nonempty(s, from, to)
    }
}

/// `String::push`: appends one character.
pub assume_specification[ String::push ](s: &mut String, c: char)
    ensures
        final(s)@ == old(s)@.push(c),
;

/// Whether `part` stands in `chars` at `at`.
fn stands_at(chars: &Vec<char>, at: usize, part: &Vec<char>) -> (res: bool)
    requires
        at <= chars.len(),
    ensures
        res == part@.is_prefix_of(chars@.skip(at as int)),
{
    if chars.len() - at < part.len() {
        return false;
    }
    let mut i: usize = 0;
    while i < part.len()
        invariant
            i <= part.len(),
            at + part.len() <= chars.len(),
            forall|j: int| 0 <= j < i ==> part@[j] == chars@.skip(at as int)[j],
        decreases part.len() - i,
    {
        if chars[at + i] != part[i] {
            assert(part@[i as int] != chars@.skip(at as int)[i as int]);
            assert(part@[i as int] != chars@.skip(at as int).subrange(0, part@.len() as int)[i as int]);
            return false;
        }
        i += 1;
    }
    assert(part@ =~= chars@.skip(at as int).subrange(0, part@.len() as int));
    true
}

/// `text` with every match of `from` replaced by `to`.
pub fn replace_all(text: &str, from: &str, to: &str) -> (res: String)
    ensures
        res@ == replaced(text@, from@, to@),
{
    let chars: Vec<char> = chars_of(text);
    let pattern: Vec<char> = chars_of(from);
    let mut res: String = String::new();
    let mut i: usize = 0;
    assert(text@.skip(0) == text@);
    if pattern.len() == 0 {
        while i < chars.len()
            invariant
                i <= chars.len(),
                chars@ == text@,
                interspersed(text@, to@) == res@ + interspersed(text@.skip(i as int), to@),
            decreases chars.len() - i,
        {
            let ghost before = res@;
            res.append(to);
            res.push(chars[i]);
            proof {
                let rest = text@.skip(i as int);
                assert(rest.drop_first() == text@.skip(i + 1));
                assert(res@ + interspersed(rest.drop_first(), to@) =~= before + interspersed(rest, to@));
            }
            i += 1;
        }
        res.append(to);
    } else {
        while i < chars.len()
            invariant
                i <= chars.len(),
                chars@ == text@,
                pattern@ == from@,
                from@.len() > 0,
                replaced_nonempty(text@, from@, to@) == res@ + replaced_nonempty(
                    text@.skip(i as int),
                    from@,
                    to@,
                ),
            decreases chars.len() - i,
        {
            let ghost before = res@;
            let ghost rest = text@.skip(i as int);
            if stands_at(&chars, i, &pattern) {
                res.append(to);
                proof {
                    assert(rest.skip(from@.len() as int) == text@.skip(i + from@.len()));
                    assert(res@ + replaced_nonempty(rest.skip(from@.len() as int), from@, to@)
                        =~= before + replaced_nonempty(rest, from@, to@));
                }
                i += pattern.len();
            } else {
                res.push(chars[i]);
                proof {
                    assert(rest.drop_first() == text@.skip(i + 1));
                    if rest.len() < from@.len() {
                        assert(replaced_nonempty(rest.drop_first(), from@, to@) == rest.drop_first());
                    }
                    assert(res@ + replaced_nonempty(rest.drop_first(), from@, to@)
                        =~= before + replaced_nonempty(rest, from@, to@));
                }
                i += 1;
            }
        }
    }
    res
}

/// The view of an optional text.
pub open spec fn optional_text(value: Option<String>) -> Option<Seq<char>> {
    match value {
        Some(s) => Some(s@),
        None => None,
    }
}

/// The text, or the empty one where there is none.
pub open spec fn text_or_empty(text: Option<Seq<char>>) -> Seq<char> {
    match text {
        Some(s) => s,
        None => Seq::empty(),
    }
}

/// The views of a list of texts.
pub open spec fn texts(list: Seq<String>) -> Seq<Seq<char>> {
    Seq::new(list.len(), |i: int| list[i]@)
}

/// `list` strung together with `sep` between neighbours.
pub open spec fn joined(list: Seq<Seq<char>>, sep: Seq<char>) -> Seq<char>
    decreases list.len(),
{
    if list.len() == 0 {
        Seq::empty()
    } else if list.len() == 1 {
        list[0]
    } else {
        joined(list.drop_last(), sep) + sep + list.last()
    }
}

/// The texts of `list` strung together with `sep` between neighbours.
pub fn join(list: &Vec<String>, sep: &str) -> (res: String)
    ensures
        res@ == joined(texts(list@), sep@),
{
    let mut res: String = String::new();
    let mut i: usize = 0;
    while i < list.len()
        invariant
            i <= list.len(),
            res@ == joined(texts(list@).take(i as int), sep@),
        decreases list.len() - i,
    {
        if i > 0 {
            res.append(sep);
        }
        res.append(list[i].as_str());
        proof {
            let longer = texts(list@).take(i + 1);
            assert(longer.drop_last() == texts(list@).take(i as int));
            assert(longer.last() == list@[i as int]@);
        }
        i += 1;
    }
    assert(texts(list@).take(list.len() as int) == texts(list@));
    res
}

} // verus!
