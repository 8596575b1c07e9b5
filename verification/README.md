# wb_switch_core

The rules by which WorkBuddy sessions are listed and copied between accounts,
written in Verus: the functions in `src/` are proved against their contracts, but
for one that is taken on trust, as are two functions of the standard library (see
below).

- `src/` is the library. It touches no file and no database. A piece of work that
  needs them is a job: `request` says what it has to know or to have done next,
  `advance` takes the reply, and `request` is `None` once the job is over.
  - `text`, `title`, `workspace`, `json`, `path`, `sql`: values and what is read
    off them.
  - `edition`, `layout`: which edition of WorkBuddy an account belongs to, and where
    the data of an edition is.
  - `io`: what jobs ask for and what they are told.
  - `history`, `edge_sync`, `mapping`, `backup`, `row_copy`: the parts of a copy.
  - `listing`, `current`, `copy`, `switch`: the jobs that a program starts.
  - `laws`: what holds of the jobs as a whole, such as that the account that a
    session comes from keeps all it has.
- `app/` does what the jobs ask for, with `std::fs` and SQLite.
- `tests/` runs the jobs against databases in memory.

What is taken on trust: the contracts of `str::trim` and `String::push` of the
standard library, and that of `session_id::new_session_id`, which calls
`uuid::Uuid::new_v4` for the id of a new session.
