use crate::text::same_text;
use vstd::prelude::*;

verus! {

/// A JSON value.
pub enum Json {
    Null,
    Bool(bool),
    /// A number that is a 64-bit signed integer.
    Integer(i64),
    /// Any other number, as it is written.
    Number(String),
    Text(String),
    List(Vec<Json>),
    Object(Vec<(String, Json)>),
}

/// What a JSON value is.
#[verifier::ext_equal]
pub enum JsonView {
    Null,
    Bool(bool),
    Integer(int),
    Number(Seq<char>),
    Text(Seq<char>),
    List(Seq<JsonView>),
    Object(Seq<(Seq<char>, JsonView)>),
}

impl View for Json {
    type V = JsonView;

    open spec fn view(&self) -> JsonView {
        reading(*self)
    }
}

/// What a JSON value is, its parts included.
pub open spec fn reading(value: Json) -> JsonView
    decreases value,
{
    match value {
        Json::Null => JsonView::Null,
        Json::Bool(b) => JsonView::Bool(b),
        Json::Integer(i) => JsonView::Integer(i as int),
        Json::Number(s) => JsonView::Number(s@),
        Json::Text(s) => JsonView::Text(s@),
        Json::List(items) => JsonView::List(
            Seq::new(
                items@.len(),
                |i: int|
                    if 0 <= i < items@.len() {
                        reading(items@[i])
                    } else {
                        JsonView::Null
                    },
            ),
        ),
        Json::Object(entries) => JsonView::Object(
            Seq::new(
                entries@.len(),
                |i: int|
                    if 0 <= i < entries@.len() {
                        (entries@[i].0@, reading(entries@[i].1))
                    } else {
                        (Seq::empty(), JsonView::Null)
                    },
            ),
        ),
    }
}

/// The views of the entries of an object.
pub open spec fn entries_view(entries: Seq<(String, Json)>) -> Seq<(Seq<char>, JsonView)> {
    Seq::new(entries.len(), |i: int| (entries[i].0@, entries[i].1@))
}

/// The views of the items of a list.
pub open spec fn items_view(items: Seq<Json>) -> Seq<JsonView> {
    Seq::new(items.len(), |i: int| items[i]@)
}

/// The value of the first entry under `key`.
pub open spec fn entry(entries: Seq<(Seq<char>, JsonView)>, key: Seq<char>) -> Option<JsonView>
    decreases entries.len(),
{
    if entries.len() == 0 {
        None
    } else if entries.first().0 == key {
        Some(entries.first().1)
    } else {
        entry(entries.drop_first(), key)
    }
}

proof fn lemma_object_view(entries: Vec<(String, Json)>)
    ensures
        Json::Object(entries)@ == JsonView::Object(entries_view(entries@)),
{
    assert(Json::Object(entries)@->Object_0 =~= entries_view(entries@));
}

impl JsonView {
    /// The field `key`, where the value is an object that has it.
    pub open spec fn field(self, key: Seq<char>) -> Option<JsonView> {
        match self {
            JsonView::Object(entries) => entry(entries, key),
            _ => None,
        }
    }

    /// The field `inner` of the field `outer`.
    pub open spec fn field_in(self, outer: Seq<char>, inner: Seq<char>) -> Option<JsonView> {
        match self.field(outer) {
            Some(value) => value.field(inner),
            None => None,
        }
    }
}

/// The text that an optional value holds, where it is there and is a text.
pub open spec fn text_in(value: Option<JsonView>) -> Option<Seq<char>> {
    match value {
        Some(JsonView::Text(s)) => Some(s),
        _ => None,
    }
}

impl Json {
    /// The field `key`, where the value is an object that has it.
    pub fn get<'a>(&'a self, key: &str) -> (res: Option<&'a Json>)
        ensures
            match res {
                Some(value) => self@.field(key@) == Some(value@),
                None => self@.field(key@) is None,
            },
    {
        match self {
            Json::Object(entries) => {
                let ghost views = entries_view(entries@);
                proof {
                    lemma_object_view(*entries);
                }
                let mut i: usize = 0;
                assert(views.skip(0) == views);
                while i < entries.len()
                    invariant
                        i <= entries.len(),
                        views == entries_view(entries@),
                        self@ == JsonView::Object(views),
                        entry(views, key@) == entry(views.skip(i as int), key@),
                    decreases entries.len() - i,
                {
                    if same_text(entries[i].0.as_str(), key) {
                        return Some(&entries[i].1);
                    }
                    assert(views.skip(i as int).drop_first() == views.skip(i + 1));
                    i += 1;
                }
                None
            },
            _ => None,
        }
    }

    /// The field `inner` of the field `outer`.
    pub fn get_in<'a>(&'a self, outer: &str, inner: &str) -> (res: Option<&'a Json>)
        ensures
            match res {
                Some(value) => self@.field_in(outer@, inner@) == Some(value@),
                None => self@.field_in(outer@, inner@) is None,
            },
    {
        match self.get(outer) {
            Some(value) => value.get(inner),
            None => None,
        }
    }

    /// The text that the value is, if it is one.
    pub fn as_str<'a>(&'a self) -> (res: Option<&'a str>)
        ensures
            match res {
                Some(s) => self@ == JsonView::Text(s@),
                None => !(self@ is Text),
            },
    {
        match self {
            Json::Text(s) => Some(s.as_str()),
            _ => None,
        }
    }
}

/// The text that an optional value holds, where it is there and is a text.
pub fn as_text<'a>(value: Option<&'a Json>) -> (res: Option<&'a str>)
    ensures
        match (res, value) {
            (Some(s), Some(v)) => v@ == JsonView::Text(s@),
            (Some(_), None) => false,
            (None, Some(v)) => !(v@ is Text),
            (None, None) => true,
        },
{
    match value {
        Some(v) => v.as_str(),
        None => None,
    }
}

/// Appends an entry to those of an object.
pub fn put(entries: &mut Vec<(String, Json)>, key: &str, value: Json)
    ensures
        entries_view(final(entries)@) == entries_view(old(entries)@).push((key@, value@)),
{
    entries.push((key.to_string(), value));
    assert(entries_view(entries@) =~= entries_view(old(entries)@).push((key@, value@)));
}

/// The object with these entries.
pub fn object(entries: Vec<(String, Json)>) -> (res: Json)
    ensures
        res@ == JsonView::Object(entries_view(entries@)),
{
    let res = Json::Object(entries);
    proof {
        lemma_object_view(entries);
    }
    res
}

/// The list of these items.
pub fn list(items: Vec<Json>) -> (res: Json)
    ensures
        res@ == JsonView::List(items_view(items@)),
{
    let res = Json::List(items);
    assert(res@->List_0 =~= items_view(items@));
    res
}

} // verus!
