use crate::text::same_text;
use vstd::prelude::*;

verus! {

/// One component of a path, or one name in a directory.
#[derive(Debug, PartialEq, Eq)]
pub enum Name {
    /// A name that is a Unicode text.
    Text(String),
    /// Any other name, as the bytes by which the operating system knows it.
    Raw(Vec<u8>),
}

/// What a name is.
#[verifier::ext_equal]
pub enum NameView {
    Text(Seq<char>),
    Raw(Seq<u8>),
}

impl View for Name {
    type V = NameView;

    open spec fn view(&self) -> NameView {
        match *self {
            Name::Text(text) => NameView::Text(text@),
            Name::Raw(bytes) => NameView::Raw(bytes@),
        }
    }
}

/// What a path is: its components, from the first one on.
pub type PathView = Seq<NameView>;

/// The name that is this text.
pub open spec fn plain(text: Seq<char>) -> NameView {
    NameView::Text(text)
}

/// The views of a list of names.
pub open spec fn names_view(names: Seq<Name>) -> Seq<NameView> {
    Seq::new(names.len(), |i: int| names[i]@)
}

impl Clone for Name {
    fn clone(&self) -> (res: Name)
        ensures
            res@ == self@,
    {
        match self {
            Name::Text(text) => Name::Text(text.clone()),
            Name::Raw(bytes) => {
                let copy: Vec<u8> = bytes.clone();
                assert(copy@ =~= bytes@);
                Name::Raw(copy)
            },
        }
    }
}

/// Whether two lists of bytes are the same.
fn same_bytes(a: &Vec<u8>, b: &Vec<u8>) -> (res: bool)
    ensures
        res == (a@ == b@),
{
    if a.len() != b.len() {
        return false;
    }
    let mut i: usize = 0;
    while i < a.len()
        invariant
            i <= a.len() == b.len(),
            forall|j: int| 0 <= j < i ==> a@[j] == b@[j],
        decreases a.len() - i,
    {
        if a[i] != b[i] {
            return false;
        }
        i += 1;
    }
    assert(a@ =~= b@);
    true
}

impl Name {
    /// Whether two names are the same.
    pub fn same(&self, other: &Name) -> (res: bool)
        ensures
            res == (self@ == other@),
    {
        match (self, other) {
            (Name::Text(a), Name::Text(b)) => same_text(a.as_str(), b.as_str()),
            (Name::Raw(a), Name::Raw(b)) => same_bytes(a, b),
            _ => false,
        }
    }
}

/// A path as the list of its components, from the first one on. The path is
/// what comes of joining them in turn: a component that is no plain name, such as
/// `..` or one with a separator in it, leads where the file system takes it.
#[derive(Debug, PartialEq, Eq)]
pub struct FilePath {
    pub parts: Vec<Name>,
}

impl View for FilePath {
    type V = PathView;

    open spec fn view(&self) -> PathView {
        names_view(self.parts@)
    }
}

impl Clone for FilePath {
    fn clone(&self) -> (res: FilePath)
        ensures
            res@ == self@,
    {
        let mut parts: Vec<Name> = Vec::new();
        let mut i: usize = 0;
        while i < self.parts.len()
            invariant
                i <= self.parts.len(),
                parts.len() == i,
                forall|j: int| 0 <= j < i ==> (#[trigger] parts@[j])@ == self.parts@[j]@,
            decreases self.parts.len() - i,
        {
            parts.push(self.parts[i].clone());
            i += 1;
        }
        assert(names_view(parts@) =~= names_view(self.parts@));
        FilePath { parts }
    }
}

/// A path without its last component; the empty path is its own parent.
pub open spec fn parent_path(path: PathView) -> PathView {
    if path.len() > 0 {
        path.drop_last()
    } else {
        path
    }
}

impl FilePath {
    /// The path of the name `name` below this one.
    pub fn join_name(&self, name: &Name) -> (res: FilePath)
        ensures
            res@ == self@.push(name@),
    {
        let mut res: FilePath = self.clone();
        let ghost before = res.parts@;
        res.parts.push(name.clone());
        assert(names_view(res.parts@) =~= names_view(before).push(name@));
        res
    }

    /// The path of the name that is the text `part`, below this one.
    pub fn join(&self, part: &str) -> (res: FilePath)
        ensures
            res@ == self@.push(plain(part@)),
    {
        self.join_name(&Name::Text(part.to_string()))
    }

    /// The path without its last component.
    pub fn parent(&self) -> (res: FilePath)
        ensures
            res@ == parent_path(self@),
    {
        let mut res: FilePath = self.clone();
        let ghost before = res.parts@;
        res.parts.pop();
        assert(names_view(res.parts@) =~= parent_path(names_view(before)));
        res
    }
}

} // verus!
