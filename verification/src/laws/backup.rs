use crate::backup::{backup_start, part_name, BackupPhase, BackupView};
use crate::edition::SessionEdition;
use crate::io::{ReplyView, RequestView, World};
use crate::laws::layout::data_directory;
use crate::layout::{data_root, db_path};
use crate::path::{plain, NameView, PathView};
use vstd::prelude::*;

verus! {

/// The requests for the files from `index` on: a look at each, and a copy of each
/// that is there.
pub open spec fn parts_asked(
    world: World,
    data: PathView,
    root: PathView,
    index: int,
) -> Seq<RequestView>
    decreases 3 - index,
{
    if index >= 3 {
        Seq::empty()
    } else {
        let look = RequestView::IsFile(data.push(plain(part_name(index))));
        let copy = RequestView::CopyFile(
            data.push(plain(part_name(index))),
            root.push(plain(part_name(index))),
        );
        let here = if world(look).yes() {
            seq![look, copy]
        } else {
            seq![look]
        };
        here + parts_asked(world, data, root, index + 1)
    }
}

proof fn lemma_parts(world: World, backup: BackupView)
    requires
        backup.phase == BackupPhase::Part,
        backup.well_formed(),
    ensures
        backup.asked(world) == parts_asked(
            world,
            data_root(backup.home, backup.edition),
            backup.root,
            backup.index,
        ),
        backup.settled(world).over(),
        backup.settled(world).result == Some(backup.root.push(plain("workbuddy.db"@))),
    decreases 3 - backup.index,
{
    let data = data_root(backup.home, backup.edition);
    let look = RequestView::IsFile(backup.part(backup.index));
    let looked = backup.advance(world(look));
    let after = backup.next();
    let rest = parts_asked(world, data, backup.root, backup.index + 1);
    if after.phase == BackupPhase::Part {
        lemma_parts(world, after);
    } else {
        assert(rest == Seq::<RequestView>::empty());
        assert(after.asked(world) == Seq::<RequestView>::empty());
    }
    assert(after.asked(world) == rest);
    assert(backup.settled(world) == looked.settled(world));
    if world(look).yes() {
        let copy = RequestView::CopyFile(backup.part(backup.index), backup.copy_of(backup.index));
        assert(looked.asked(world) == seq![copy] + after.asked(world));
        assert(backup.asked(world) == seq![look] + looked.asked(world));
        assert(seq![look] + (seq![copy] + rest) =~= seq![look, copy] + rest);
        assert(looked.settled(world) == after.settled(world));
    } else {
        assert(backup.asked(world) == seq![look] + after.asked(world));
    }
}

/// A backup ends. Where there is a database and the directory for the backup can
/// be made, it copies each file of the database that is there, under its name,
/// and gives the copy of the database; else it copies nothing and gives nothing.
pub proof fn backup_copies_what_is_there(
    world: World,
    home: PathView,
    root: PathView,
    edition: SessionEdition,
)
    ensures
        ({
            let start = backup_start(home, root, edition);
            let look = RequestView::IsFile(db_path(home, edition));
            let make = RequestView::CreateDirs(root);
            &&& start.settled(world).over()
            &&& if !world(look).yes() {
                &&& start.asked(world) == seq![look]
                &&& start.settled(world).result is None
            } else if !world(make).yes() {
                &&& start.asked(world) == seq![look, make]
                &&& start.settled(world).result is None
            } else {
                &&& start.asked(world) == seq![look, make] + parts_asked(
                    world,
                    data_root(home, edition),
                    root,
                    0,
                )
                &&& start.settled(world).result == Some(root.push(plain("workbuddy.db"@)))
            }
        }),
{
    let start = backup_start(home, root, edition);
    let look = RequestView::IsFile(db_path(home, edition));
    let make = RequestView::CreateDirs(root);
    let looked = start.advance(world(look));
    assert(start.settled(world) == looked.settled(world));
    assert(start.asked(world) == seq![look] + looked.asked(world));
    if world(look).yes() {
        let made = looked.advance(world(make));
        assert(looked.settled(world) == made.settled(world));
        assert(looked.asked(world) == seq![make] + made.asked(world));
        if world(make).yes() {
            lemma_parts(world, made);
            assert(seq![look] + (seq![make] + made.asked(world)) =~= seq![look, make] + made.asked(
                world,
            ));
        } else {
            assert(made.asked(world) == Seq::<RequestView>::empty());
            assert(seq![look] + (seq![make] + made.asked(world)) =~= seq![look, make]);
        }
    } else {
        assert(looked.asked(world) == Seq::<RequestView>::empty());
        assert(seq![look] + looked.asked(world) =~= seq![look]);
    }
}

/// The names of the files of a session database.
pub open spec fn database_files() -> Seq<Seq<char>> {
    seq!["workbuddy.db"@, "workbuddy.db-wal"@, "workbuddy.db-shm"@]
}

/// The names of the files of a session database are these.
pub proof fn lemma_part_names()
    ensures
        part_name(0) == database_files()[0],
        part_name(1) == database_files()[1],
        part_name(2) == database_files()[2],
{
    reveal_strlit("workbuddy.db");
    reveal_strlit("");
    reveal_strlit("-wal");
    reveal_strlit("-shm");
    reveal_strlit("workbuddy.db-wal");
    reveal_strlit("workbuddy.db-shm");
    assert(part_name(0) =~= "workbuddy.db"@);
    assert(part_name(1) =~= "workbuddy.db-wal"@);
    assert(part_name(2) =~= "workbuddy.db-shm"@);
}

/// A backup copies exactly those of the files `workbuddy.db`, `workbuddy.db-wal` and
/// `workbuddy.db-shm` in the data directory of the edition that are there, each into
/// the directory of the backup and under the name that it has: provided that the
/// database is there and the directory can be made. Nothing else is changed but for
/// that directory, which is made before anything is copied.
pub proof fn backup_copies_the_database_files(
    world: World,
    home: PathView,
    root: PathView,
    edition: SessionEdition,
)
    ensures
        ({
            let asked = backup_start(home, root, edition).asked(world);
            let data = data_directory(home, edition);
            let there = world(
                RequestView::IsFile(data.push(NameView::Text("workbuddy.db"@))),
            ) == ReplyView::Flag(true);
            let made = world(RequestView::CreateDirs(root)) == ReplyView::Flag(true);
            &&& forall|from: PathView, to: PathView|
                #[trigger] asked.contains(RequestView::CopyFile(from, to)) <==> there && made && exists|i: int|
                    0 <= i < 3 && from == data.push(
                        NameView::Text(#[trigger] database_files()[i]),
                    ) && to == root.push(NameView::Text(database_files()[i])) && world(
                        RequestView::IsFile(from),
                    ) == ReplyView::Flag(true)
            &&& asked.contains(RequestView::CreateDirs(root)) <==> there
            &&& forall|k: int|
                0 <= k < asked.len() && (#[trigger] asked[k]).writes() ==> {
                    ||| k == 1 && asked[k] == RequestView::CreateDirs(root)
                    ||| k > 1 && asked[k] is CopyFile
                }
        }),
{
    let start = backup_start(home, root, edition);
    let asked = start.asked(world);
    let data = data_directory(home, edition);
    let files = database_files();
    lemma_part_names();
    backup_copies_what_is_there(world, home, root, edition);
    assert(data_root(home, edition) == data);
    let look = RequestView::IsFile(data.push(NameView::Text("workbuddy.db"@)));
    let make = RequestView::CreateDirs(root);
    let looks = Seq::new(
        3,
        |i: int| RequestView::IsFile(data.push(NameView::Text(database_files()[i]))),
    );
    let copies = Seq::new(
        3,
        |i: int|
            RequestView::CopyFile(
                data.push(NameView::Text(database_files()[i])),
                root.push(NameView::Text(database_files()[i])),
            ),
    );
    let here = Seq::new(
        3,
        |i: int|
            if world(looks[i]) == ReplyView::Flag(true) {
                seq![looks[i], copies[i]]
            } else {
                seq![looks[i]]
            },
    );
    assert(parts_asked(world, data, root, 3) =~= Seq::empty());
    assert(parts_asked(world, data, root, 2) =~= here[2]);
    assert(parts_asked(world, data, root, 1) =~= here[1] + here[2]);
    assert(parts_asked(world, data, root, 0) =~= here[0] + (here[1] + here[2]));
    let whole = seq![look, make] + (here[0] + (here[1] + here[2]));
    if world(look) == ReplyView::Flag(true) {
        if world(make) == ReplyView::Flag(true) {
            assert(asked =~= whole);
            assert(asked[1] == make);
            assert forall|i: int| 0 <= i < 3 && world(looks[i]) == ReplyView::Flag(
                true,
            ) implies asked.contains(#[trigger] copies[i]) by {
                let at = if i == 0 {
                    3int
                } else if i == 1 {
                    here[0].len() as int + 3
                } else {
                    here[0].len() as int + here[1].len() as int + 3
                };
                assert(whole[at] == copies[i]);
            }
            assert forall|k: int| 2 <= k < asked.len() implies {
                ||| !(#[trigger] asked[k]).writes()
                ||| exists|i: int|
                    0 <= i < 3 && asked[k] == #[trigger] copies[i] && world(looks[i])
                        == ReplyView::Flag(true)
            } by {
                let at = k - 2;
                if at < here[0].len() {
                    assert(asked[k] == here[0][at]);
                    assert(asked[k] == looks[0] || asked[k] == copies[0]);
                } else if at < here[0].len() + here[1].len() {
                    assert(asked[k] == here[1][at - here[0].len()]);
                    assert(asked[k] == looks[1] || asked[k] == copies[1]);
                } else {
                    assert(asked[k] == here[2][at - here[0].len() - here[1].len()]);
                    assert(asked[k] == looks[2] || asked[k] == copies[2]);
                }
            }
            assert forall|from: PathView, to: PathView|
                #[trigger] asked.contains(RequestView::CopyFile(from, to)) <==> exists|i: int|
                    0 <= i < 3 && from == data.push(
                        NameView::Text(#[trigger] database_files()[i]),
                    ) && to == root.push(NameView::Text(database_files()[i])) && world(
                        RequestView::IsFile(from),
                    ) == ReplyView::Flag(true) by {
                let copy = RequestView::CopyFile(from, to);
                if asked.contains(copy) {
                    let k = asked.index_of(copy);
                    assert(asked[k].writes() && k >= 2);
                    let i = choose|i: int|
                        0 <= i < 3 && asked[k] == #[trigger] copies[i] && world(looks[i])
                            == ReplyView::Flag(true);
                    assert(files[i] == database_files()[i]);
                    assert(from == data.push(NameView::Text(database_files()[i])));
                }
                if exists|i: int|
                    0 <= i < 3 && from == data.push(
                        NameView::Text(#[trigger] database_files()[i]),
                    ) && to == root.push(NameView::Text(database_files()[i])) && world(
                        RequestView::IsFile(from),
                    ) == ReplyView::Flag(true) {
                    let i = choose|i: int|
                        0 <= i < 3 && from == data.push(
                            NameView::Text(#[trigger] database_files()[i]),
                        ) && to == root.push(NameView::Text(database_files()[i])) && world(
                            RequestView::IsFile(from),
                        ) == ReplyView::Flag(true);
                    assert(copies[i] == copy);
                }
            }
        } else {
            assert(asked =~= seq![look, make]);
            assert(asked[1] == make);
        }
    } else {
        assert(asked =~= seq![look]);
    }
}

} // verus!
