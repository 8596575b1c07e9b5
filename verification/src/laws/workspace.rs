use crate::laws::text::{
    lemma_last_segment_behind, lemma_trimmed_back, lemma_trimmed_front, trimmed_is_the_middle,
};
use crate::text::{trimmed, trimmed_front, white_space};
use crate::workspace::{
    ascii_lower, is_claw, last_segment, same_ignoring_ascii_case, without_trailing_separators,
};
use vstd::prelude::*;

verus! {

/// Whether a character parts the folders of a path, on any system.
pub open spec fn parts_folders(c: char) -> bool {
    c == '/' || c == '\\'
}

/// Whether a name is "claw", each letter in either case.
pub open spec fn spells_claw(name: Seq<char>) -> bool {
    &&& name.len() == 4
    &&& name[0] == 'c' || name[0] == 'C'
    &&& name[1] == 'l' || name[1] == 'L'
    &&& name[2] == 'a' || name[2] == 'A'
    &&& name[3] == 'w' || name[3] == 'W'
}

/// A working directory, taken apart into white space, the folders above, the last
/// folder, separators and white space.
#[verifier::ext_equal]
pub struct Apart {
    pub margin: Seq<char>,
    pub above: Seq<char>,
    pub name: Seq<char>,
    pub separators: Seq<char>,
    pub back: Seq<char>,
}

impl Apart {
    /// The working directory that was taken apart.
    pub open spec fn whole(self) -> Seq<char> {
        self.margin + self.above + self.name + self.separators + self.back
    }

    /// Whether the last folder is called "claw", and all parts are what they are to be.
    pub open spec fn is_claw_folder(self) -> bool {
        &&& forall|i: int| 0 <= i < self.margin.len() ==> white_space(#[trigger] self.margin[i])
        &&& forall|i: int| 0 <= i < self.back.len() ==> white_space(#[trigger] self.back[i])
        &&& forall|i: int|
            0 <= i < self.separators.len() ==> parts_folders(#[trigger] self.separators[i])
        &&& self.above.len() == 0 || parts_folders(self.above.last())
        &&& spells_claw(self.name)
    }
}

proof fn lemma_spells(name: Seq<char>)
    ensures
        same_ignoring_ascii_case(name, "claw"@) <==> spells_claw(name),
{
    reveal_strlit("claw");
    if same_ignoring_ascii_case(name, "claw"@) {
        assert(ascii_lower(name[0]) == ascii_lower("claw"@[0]));
        assert(ascii_lower(name[1]) == ascii_lower("claw"@[1]));
        assert(ascii_lower(name[2]) == ascii_lower("claw"@[2]));
        assert(ascii_lower(name[3]) == ascii_lower("claw"@[3]));
    }
}

proof fn lemma_without_separators(front: Seq<char>, separators: Seq<char>)
    requires
        front.len() > 0 ==> !parts_folders(front.last()),
        forall|i: int| 0 <= i < separators.len() ==> parts_folders(#[trigger] separators[i]),
    ensures
        without_trailing_separators(front + separators) == front,
    decreases separators.len(),
{
    let s = front + separators;
    if separators.len() > 0 {
        assert(s.last() == separators[separators.len() - 1]);
        assert(s.drop_last() =~= front + separators.drop_last());
        lemma_without_separators(front, separators.drop_last());
    } else {
        assert(s =~= front);
    }
}

proof fn lemma_take_separators(s: Seq<char>) -> (separators: Seq<char>)
    ensures
        s == without_trailing_separators(s) + separators,
        forall|i: int| 0 <= i < separators.len() ==> parts_folders(#[trigger] separators[i]),
    decreases s.len(),
{
    if s.len() > 0 && parts_folders(s.last()) {
        let rest = lemma_take_separators(s.drop_last());
        let separators = rest.push(s.last());
        let front = without_trailing_separators(s.drop_last());
        assert(without_trailing_separators(s) == front);
        assert(s =~= (front + rest).push(s.last()));
        assert(s =~= without_trailing_separators(s) + separators);
        separators
    } else {
        assert(s =~= s + Seq::<char>::empty());
        Seq::empty()
    }
}

proof fn lemma_take_last(s: Seq<char>) -> (above: Seq<char>)
    ensures
        s == above + last_segment(s),
        above.len() == 0 || parts_folders(above.last()),
    decreases s.len(),
{
    if s.len() == 0 || parts_folders(s.last()) {
        assert(s =~= s + last_segment(s));
        s
    } else {
        let above = lemma_take_last(s.drop_last());
        assert(s =~= (above + last_segment(s.drop_last())).push(s.last()));
        assert(s =~= above + last_segment(s));
        above
    }
}

/// A working directory whose last folder is called "claw", in any case, is a Claw
/// workspace, whatever is above it, whichever separators follow it and whatever
/// white space is around it.
pub proof fn claw_folder_is_claw(apart: Apart)
    requires
        apart.is_claw_folder(),
    ensures
        is_claw(apart.whole()),
{
    let s = apart.whole();
    let name = apart.name;
    let start = apart.margin.len() + apart.above.len();
    let cut = lemma_trimmed_front(s);
    assert(s[start as int] == name[0]);
    assert(cut <= start);
    if cut < apart.margin.len() {
        assert(s[cut] == apart.margin[cut]);
    }
    let front = trimmed_front(s);
    let end = lemma_trimmed_back(front);
    let above = apart.above.skip(cut - apart.margin.len());
    let middle = above + name + apart.separators;
    assert(front =~= middle + apart.back);
    assert(end <= middle.len()) by {
        if end > middle.len() {
            assert(front[end - 1] == apart.back[end - 1 - middle.len()]);
        }
    }
    assert(end >= middle.len()) by {
        if end < middle.len() {
            let last = middle.len() - 1;
            assert(white_space(front[last]));
            if apart.separators.len() > 0 {
                assert(front[last] == apart.separators[apart.separators.len() - 1]);
            } else {
                assert(front[last] == name[3]);
            }
        }
    }
    assert(trimmed(s) =~= middle);
    assert((above + name).last() == name[3]);
    lemma_without_separators(above + name, apart.separators);
    if above.len() > 0 {
        assert(above.last() == apart.above.last());
    }
    lemma_last_segment_behind(above, name);
    lemma_spells(name);
}

/// Every Claw workspace is a working directory whose last folder is called "claw",
/// in any case.
pub proof fn claw_is_a_claw_folder(cwd: Seq<char>) -> (apart: Apart)
    requires
        is_claw(cwd),
    ensures
        apart.whole() == cwd,
        apart.is_claw_folder(),
{
    let margins = trimmed_is_the_middle(cwd);
    let t = trimmed(cwd);
    let separators = lemma_take_separators(t);
    let u = without_trailing_separators(t);
    let above = lemma_take_last(u);
    let name = last_segment(u);
    lemma_spells(name);
    let apart = Apart { margin: margins.0, above, name, separators, back: margins.1 };
    assert(apart.whole() =~= cwd);
    apart
}

} // verus!
