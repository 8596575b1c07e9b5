use crate::edge_sync::is_nonzero;
use crate::io::{ReplyView, RequestView};
use crate::json::{text_in, JsonView};
use crate::path::{parent_path, NameView, PathView};
use crate::sql::{is_one, SqlView};
use vstd::prelude::*;

verus! {

/// What a reply says: a yes is a yes and nothing else is one; a file, a text, a time
/// and a number are those in the reply, and of rows it is the first value of the
/// first one that counts.
pub proof fn replies_say_what_they_hold(reply: ReplyView, path: PathView, text: Seq<char>)
    ensures
        reply.yes() <==> reply == ReplyView::Flag(true),
        reply.located() == Some(path) <==> reply == ReplyView::Located(Some(path)),
        reply.text() == Some(text) <==> reply == ReplyView::Text(Some(text)),
        reply.time() == (match reply {
            ReplyView::Time(Some(time)) => time,
            _ => 0,
        }),
        reply.number() == (match reply {
            ReplyView::Number(n) => n,
            _ => 0,
        }),
        reply.first_value() == (match reply {
            ReplyView::Rows(found) => if found.rows.len() > 0 && found.rows[0].len() > 0 {
                Some(found.rows[0][0])
            } else {
                None
            },
            _ => None,
        }),
{
}

/// A reply names a column exactly where one of its rows has the name in second place.
pub proof fn columns_are_named_in_second_place(reply: ReplyView, name: Seq<char>)
    ensures
        reply.names_column(name) <==> (reply is Rows && exists|i: int|
            0 <= i < reply->Rows_0.rows.len() && #[trigger] reply->Rows_0.rows[i].len() > 1
                && reply->Rows_0.rows[i][1] == SqlView::Text(name)),
{
}

/// That a table is there is said by 1, and that a channel is known by anything but 0.
pub proof fn numbers_say_yes(value: Option<SqlView>, n: i64)
    ensures
        is_one(value) <==> value == Some(SqlView::Integer(1)),
        value == Some(SqlView::Integer(n)) ==> (is_nonzero(value) <==> n != 0),
        !(value is Some && value->0 is Integer) ==> !is_nonzero(value),
{
}

/// To write a file, to make directories, to copy a file and to execute a statement
/// changes something; nothing else does.
pub proof fn these_requests_change_something(request: RequestView)
    ensures
        request.writes() <==> request is WriteText || request is CreateDirs || request is CopyFile
            || request is Execute,
{
}

/// A field of a JSON value is the first entry under its name in the object that the
/// value is.
pub proof fn field_is_the_first_entry(value: JsonView, key: Seq<char>, found: JsonView)
    ensures
        value.field(key) == Some(found) <==> (value is Object && exists|i: int|
            0 <= i < value->Object_0.len() && #[trigger] value->Object_0[i] == (key, found)
                && forall|j: int| 0 <= j < i ==> (#[trigger] value->Object_0[j]).0 != key),
        value.field(key) is None <==> !(value is Object && exists|i: int|
            0 <= i < value->Object_0.len() && (#[trigger] value->Object_0[i]).0 == key),
{
    if value is Object {
        lemma_entry(value->Object_0, key);
    }
}

proof fn lemma_entry(entries: Seq<(Seq<char>, JsonView)>, key: Seq<char>)
    ensures
        match crate::json::entry(entries, key) {
            Some(found) => exists|i: int|
                0 <= i < entries.len() && #[trigger] entries[i] == (key, found) && forall|j: int|
                    0 <= j < i ==> (#[trigger] entries[j]).0 != key,
            None => forall|i: int| 0 <= i < entries.len() ==> (#[trigger] entries[i]).0 != key,
        },
    decreases entries.len(),
{
    if entries.len() > 0 {
        if entries.first().0 == key {
            assert(entries[0] == (key, entries.first().1));
        } else {
            let rest = entries.drop_first();
            lemma_entry(rest, key);
            match crate::json::entry(rest, key) {
                Some(found) => {
                    let i = choose|i: int|
                        0 <= i < rest.len() && #[trigger] rest[i] == (key, found) && forall|j: int|
                            0 <= j < i ==> (#[trigger] rest[j]).0 != key;
                    assert(entries[i + 1] == (key, found));
                    assert forall|j: int| 0 <= j < i + 1 implies (#[trigger] entries[j]).0
                        != key by {
                        if j > 0 {
                            assert(rest[j - 1] == entries[j]);
                        }
                    }
                },
                None => {
                    assert forall|i: int| 0 <= i < entries.len() implies (#[trigger] entries[i]).0
                        != key by {
                        if i > 0 {
                            assert(rest[i - 1] == entries[i]);
                        }
                    }
                },
            }
        }
    }
}

/// A field of a field, and a text in a field, are what their names say.
pub proof fn fields_are_looked_up_in_turn(
    value: JsonView,
    outer: Seq<char>,
    inner: Seq<char>,
    found: Option<JsonView>,
    s: Seq<char>,
)
    ensures
        value.field_in(outer, inner) == (match value.field(outer) {
            Some(middle) => middle.field(inner),
            None => None,
        }),
        text_in(found) == Some(s) <==> found == Some(JsonView::Text(s)),
{
}

/// The parent of what is in a directory is the directory.
pub proof fn parent_of_an_entry(directory: PathView, name: NameView)
    ensures
        parent_path(directory.push(name)) == directory,
{
    assert(directory.push(name).drop_last() =~= directory);
}

} // verus!
