use crate::edition::SessionEdition;
use crate::io::{optional_path, optional_request, Reply, ReplyView, Request, RequestView, World};
use crate::layout::{data_root, data_root_for_edition};
use crate::path::{plain, FilePath, PathView};
use crate::sql::{values_view, SqlValue, SqlView, Statement, StatementView};
use crate::text::optional_text;
use vstd::prelude::*;
use vstd::string::*;

verus! {

/// The views of a list of paths.
pub open spec fn paths_view(paths: Seq<FilePath>) -> Seq<PathView> {
    Seq::new(paths.len(), |i: int| paths[i]@)
}

/// Where the mapping databases of an edition can be, the newest version first.
/// A newer version leaves the files of the older ones in place.
pub open spec fn mapping_paths(home: PathView, edition: SessionEdition) -> Seq<PathView> {
    let root = data_root(home, edition);
    seq![
        root.push(plain("edge-sync-mapping-v4.db"@)),
        root.push(plain("edge-sync-mapping-v3.db"@)),
        root.push(plain("edge-sync-mapping-v2.db"@)),
    ]
}

/// Those of `paths` whose flag is set.
pub open spec fn flagged(paths: Seq<PathView>, flags: Seq<bool>) -> Seq<PathView>
    decreases paths.len(),
{
    if paths.len() == 0 {
        Seq::empty()
    } else {
        let before = flagged(paths.drop_last(), flags);
        if paths.len() <= flags.len() && flags[paths.len() - 1] {
            before.push(paths.last())
        } else {
            before
        }
    }
}

/// A file and the time of its last change.
pub type Dated = (PathView, i128);

/// `list`, which runs from the latest time to the earliest, with `file` before
/// the first one that is not later.
pub open spec fn placed(list: Seq<Dated>, file: Dated) -> Seq<Dated>
    decreases list.len(),
{
    if list.len() == 0 {
        seq![file]
    } else if list.first().1 <= file.1 {
        seq![file] + list
    } else {
        seq![list.first()] + placed(list.drop_first(), file)
    }
}

/// `files` from the latest time to the earliest; of those with one time, the one
/// that comes last in `files` first.
pub open spec fn newest_first(files: Seq<Dated>) -> Seq<Dated>
    decreases files.len(),
{
    if files.len() == 0 {
        Seq::empty()
    } else {
        placed(newest_first(files.drop_last()), files.last())
    }
}

/// Each path with its time.
pub open spec fn dated(paths: Seq<PathView>, times: Seq<i128>) -> Seq<Dated> {
    Seq::new(paths.len(), |i: int| (paths[i], times[i]))
}

/// The paths of dated files.
pub open spec fn undated(files: Seq<Dated>) -> Seq<PathView> {
    Seq::new(files.len(), |i: int| files[i].0)
}

/// The views of dated files.
pub open spec fn dated_view(files: Seq<(FilePath, i128)>) -> Seq<Dated> {
    Seq::new(files.len(), |i: int| (files[i].0@, files[i].1))
}

/// The channel by which the messages of a user reach the cloud.
pub open spec fn channel_of(uid: Seq<char>) -> Seq<char> {
    "convmsg:"@ + uid
}

/// The channel by which the messages of a user reach the cloud.
pub fn message_channel(uid: &str) -> (res: String)
    ensures
        res@ == channel_of(uid@),
{
    let mut res: String = "convmsg:".to_string();
    res.append(uid);
    res
}

/// Where the mapping databases of an edition can be.
pub fn edge_sync_paths(home: &FilePath, edition: SessionEdition) -> (res: Vec<FilePath>)
    ensures
        paths_view(res@) == mapping_paths(home@, edition),
{
    let root: FilePath = data_root_for_edition(home, edition);
    let mut res: Vec<FilePath> = Vec::new();
    res.push(root.join("edge-sync-mapping-v4.db"));
    res.push(root.join("edge-sync-mapping-v3.db"));
    res.push(root.join("edge-sync-mapping-v2.db"));
    assert(paths_view(res@) =~= mapping_paths(home@, edition));
    res
}

/// The mapping databases of an edition that are there, where `is_file` says of
/// each of its places in turn whether a file is in it.
pub fn edge_sync_candidates(home: &FilePath, edition: SessionEdition, is_file: &Vec<bool>) -> (res:
    Vec<FilePath>)
    ensures
        paths_view(res@) == flagged(mapping_paths(home@, edition), is_file@),
{
    let paths: Vec<FilePath> = edge_sync_paths(home, edition);
    let ghost all = mapping_paths(home@, edition);
    let mut res: Vec<FilePath> = Vec::new();
    let mut i: usize = 0;
    assert(paths_view(res@) =~= flagged(all.take(0), is_file@));
    while i < paths.len()
        invariant
            i <= paths.len(),
            all == paths_view(paths@),
            paths_view(res@) == flagged(all.take(i as int), is_file@),
        decreases paths.len() - i,
    {
        let ghost longer = all.take(i + 1);
        let ghost before = paths_view(res@);
        assert(longer.drop_last() == all.take(i as int));
        if i < is_file.len() && is_file[i] {
            res.push(paths[i].clone());
            assert(paths_view(res@) =~= before.push(longer.last()));
        }
        i += 1;
    }
    assert(all.take(all.len() as int) == all);
    res
}

/// A file is placed before the first one that is not later.
pub proof fn lemma_placed(list: Seq<Dated>, file: Dated, at: int)
    requires
        0 <= at <= list.len(),
        forall|i: int| 0 <= i < at ==> (#[trigger] list[i]).1 > file.1,
        at < list.len() ==> list[at].1 <= file.1,
    ensures
        placed(list, file) == list.insert(at, file),
    decreases list.len(),
{
    if list.len() > 0 && at > 0 {
        assert(list[0].1 > file.1);
        let rest = list.drop_first();
        assert forall|i: int| 0 <= i < at - 1 implies (#[trigger] rest[i]).1 > file.1 by {
            assert(list[i + 1].1 > file.1);
        }
        lemma_placed(rest, file, at - 1);
        assert(seq![list.first()] + rest.insert(at - 1, file) =~= list.insert(at, file));
    } else {
        assert(placed(list, file) =~= list.insert(at, file));
    }
}

/// The paths from the one that was changed last to the one that was changed
/// first, where `times` says when each was.
pub fn order_by_time(paths: &Vec<FilePath>, times: &Vec<i128>) -> (res: Vec<FilePath>)
    requires
        paths.len() == times.len(),
    ensures
        paths_view(res@) == undated(newest_first(dated(paths_view(paths@), times@))),
{
    let ghost files = dated(paths_view(paths@), times@);
    let mut list: Vec<(FilePath, i128)> = Vec::new();
    let mut i: usize = 0;
    assert(dated_view(list@) =~= newest_first(files.take(0)));
    while i < paths.len()
        invariant
            i <= paths.len() == times.len(),
            files == dated(paths_view(paths@), times@),
            dated_view(list@) == newest_first(files.take(i as int)),
        decreases paths.len() - i,
    {
        let ghost before = dated_view(list@);
        let ghost file = (paths@[i as int]@, times@[i as int]);
        let mut at: usize = 0;
        while at < list.len() && list[at].1 > times[i]
            invariant
                at <= list.len(),
                i < times.len(),
                before == dated_view(list@),
                forall|j: int| 0 <= j < at ==> (#[trigger] before[j]).1 > times@[i as int],
            decreases list.len() - at,
        {
            assert(before[at as int].1 > times@[i as int]);
            at += 1;
        }
        proof {
            if at < list.len() {
                assert(before[at as int].1 == list@[at as int].1);
            }
            lemma_placed(before, file, at as int);
            let longer = files.take(i + 1);
            assert(longer.drop_last() == files.take(i as int));
            assert(longer.last() == file);
        }
        list.insert(at, (paths[i].clone(), times[i]));
        assert(dated_view(list@) =~= before.insert(at as int, file));
        i += 1;
    }
    assert(files.take(files.len() as int) == files);
    let mut res: Vec<FilePath> = Vec::new();
    let mut k: usize = 0;
    while k < list.len()
        invariant
            k <= list.len(),
            res@.len() == k,
            forall|j: int| 0 <= j < k ==> (#[trigger] res@[j])@ == list@[j].0@,
        decreases list.len() - k,
    {
        res.push(list[k].0.clone());
        k += 1;
    }
    assert(paths_view(res@) =~= undated(dated_view(list@)));
    res
}

/// Where the search for the mapping database stands.
#[derive(Clone, Copy, Debug, PartialEq, Eq, Structural)]
pub enum EdgeSyncPhase {
    /// Is there a file in the next place?
    Files,
    /// When was the next of the files changed?
    Times,
    /// Does the database at the index know the channel?
    Probe,
    Finished,
}

/// The search for the mapping database of an edition that is in use.
pub struct EdgeSyncSearch {
    home: FilePath,
    edition: SessionEdition,
    channel: Option<String>,
    phase: EdgeSyncPhase,
    flags: Vec<bool>,
    candidates: Vec<FilePath>,
    times: Vec<i128>,
    ordered: Vec<FilePath>,
    index: usize,
    found: Option<FilePath>,
}

/// What the search for the mapping database is.
#[verifier::ext_equal]
pub struct EdgeSyncView {
    pub home: PathView,
    pub edition: SessionEdition,
    pub channel: Option<Seq<char>>,
    pub phase: EdgeSyncPhase,
    pub flags: Seq<bool>,
    pub candidates: Seq<PathView>,
    pub times: Seq<i128>,
    pub ordered: Seq<PathView>,
    pub index: int,
    pub found: Option<PathView>,
}

impl View for EdgeSyncSearch {
    type V = EdgeSyncView;

    closed spec fn view(&self) -> EdgeSyncView {
        EdgeSyncView {
            home: self.home@,
            edition: self.edition,
            channel: optional_text(self.channel),
            phase: self.phase,
            flags: self.flags@,
            candidates: paths_view(self.candidates@),
            times: self.times@,
            ordered: paths_view(self.ordered@),
            index: self.index as int,
            found: optional_path(self.found),
        }
    }
}

/// The search for the mapping database, before anything is asked. With a user it
/// prefers a database that knows the channel of that user.
pub open spec fn edge_sync_start(
    home: PathView,
    edition: SessionEdition,
    target_uid: Option<Seq<char>>,
) -> EdgeSyncView {
    EdgeSyncView {
        home,
        edition,
        channel: match target_uid {
            Some(uid) => Some(channel_of(uid)),
            None => None,
        },
        phase: EdgeSyncPhase::Files,
        flags: Seq::empty(),
        candidates: Seq::empty(),
        times: Seq::empty(),
        ordered: Seq::empty(),
        index: 0,
        found: None,
    }
}

/// The question whether a mapping database knows a channel.
pub open spec fn channel_query(db: PathView, channel: Seq<char>) -> StatementView {
    StatementView {
        db,
        read_only: true,
        sql: "SELECT EXISTS(SELECT 1 FROM edge_sync_mapping WHERE msg_channel = ?1)"@,
        params: seq![SqlView::Text(channel)],
    }
}

/// Whether a value is a number other than 0.
pub open spec fn is_nonzero(value: Option<SqlView>) -> bool {
    value matches Some(SqlView::Integer(n)) && n != 0
}

impl EdgeSyncView {
    /// Where the search looks at something, it is there.
    pub open spec fn well_formed(self) -> bool {
        match self.phase {
            EdgeSyncPhase::Files => self.flags.len() < 3 && self.times.len() == 0,
            EdgeSyncPhase::Times => self.times.len() < self.candidates.len(),
            EdgeSyncPhase::Probe => 0 <= self.index < self.ordered.len() && self.channel is Some,
            EdgeSyncPhase::Finished => true,
        }
    }

    /// Whether the search is over.
    pub open spec fn over(self) -> bool {
        self.phase == EdgeSyncPhase::Finished
    }

    /// What the search has to know next.
    pub open spec fn request(self) -> Option<RequestView> {
        match self.phase {
            EdgeSyncPhase::Files => Some(
                RequestView::IsFile(
                    mapping_paths(self.home, self.edition)[self.flags.len() as int],
                ),
            ),
            EdgeSyncPhase::Times => Some(
                RequestView::Modified(self.candidates[self.times.len() as int]),
            ),
            EdgeSyncPhase::Probe => Some(
                RequestView::Query(channel_query(self.ordered[self.index], self.channel->0)),
            ),
            EdgeSyncPhase::Finished => None,
        }
    }

    /// The search that ended with `found`.
    pub open spec fn ended(self, found: Option<PathView>) -> EdgeSyncView {
        EdgeSyncView { phase: EdgeSyncPhase::Finished, found, ..self }
    }

    /// The search with all places looked at.
    pub open spec fn with_candidates(self) -> EdgeSyncView {
        let candidates = flagged(mapping_paths(self.home, self.edition), self.flags);
        let next = EdgeSyncView { candidates, ..self };
        if candidates.len() > 0 {
            EdgeSyncView { phase: EdgeSyncPhase::Times, ..next }
        } else {
            next.ended(None)
        }
    }

    /// The search with the times of all files known.
    pub open spec fn with_order(self) -> EdgeSyncView {
        let ordered = undated(newest_first(dated(self.candidates, self.times)));
        let next = EdgeSyncView { ordered, index: 0, ..self };
        if self.channel is Some {
            EdgeSyncView { phase: EdgeSyncPhase::Probe, ..next }
        } else {
            next.ended(Some(ordered[0]))
        }
    }

    /// The search after `reply`.
    pub open spec fn advance(self, reply: ReplyView) -> EdgeSyncView {
        match self.phase {
            EdgeSyncPhase::Files => {
                let next = EdgeSyncView { flags: self.flags.push(reply.yes()), ..self };
                if next.flags.len() < 3 {
                    next
                } else {
                    next.with_candidates()
                }
            },
            EdgeSyncPhase::Times => {
                let next = EdgeSyncView { times: self.times.push(reply.time()), ..self };
                if next.times.len() < next.candidates.len() {
                    next
                } else {
                    next.with_order()
                }
            },
            EdgeSyncPhase::Probe => if is_nonzero(reply.first_value()) {
                self.ended(Some(self.ordered[self.index]))
            } else if self.index + 1 < self.ordered.len() {
                EdgeSyncView { index: self.index + 1, ..self }
            } else {
                self.ended(Some(self.ordered[0]))
            },
            EdgeSyncPhase::Finished => self,
        }
    }

    /// How far the search is from its end: each phase is below the one before it.
    pub open spec fn rank(self) -> nat {
        match self.phase {
            EdgeSyncPhase::Files => 3,
            EdgeSyncPhase::Times => 2,
            EdgeSyncPhase::Probe => 1,
            EdgeSyncPhase::Finished => 0,
        }
    }

    /// How many looks are left in the phase.
    pub open spec fn looks_left(self) -> int {
        match self.phase {
            EdgeSyncPhase::Files => 3 - self.flags.len(),
            EdgeSyncPhase::Times => self.candidates.len() - self.times.len(),
            EdgeSyncPhase::Probe => self.ordered.len() - self.index,
            EdgeSyncPhase::Finished => 0,
        }
    }

    /// The search at its end, where `world` answers its requests.
    pub open spec fn settled(self, world: World) -> EdgeSyncView
        decreases self.rank(), self.looks_left(),
    {
        match self.request() {
            Some(request) if self.well_formed() => self.advance(world(request)).settled(world),
            _ => self,
        }
    }
}

proof fn lemma_placed_len(list: Seq<Dated>, file: Dated)
    ensures
        placed(list, file).len() == list.len() + 1,
    decreases list.len(),
{
    if list.len() > 0 && list.first().1 > file.1 {
        lemma_placed_len(list.drop_first(), file);
    }
}

/// Ordering files by time keeps their number.
pub proof fn lemma_newest_first_len(files: Seq<Dated>)
    ensures
        newest_first(files).len() == files.len(),
    decreases files.len(),
{
    if files.len() > 0 {
        lemma_newest_first_len(files.drop_last());
        lemma_placed_len(newest_first(files.drop_last()), files.last());
    }
}

/// The search for the mapping database of an edition that is in use: the one
/// that was changed last among those that know the channel of the user, else
/// among all.
pub fn edge_sync_db_path_for_edition(
    home: &FilePath,
    edition: SessionEdition,
    target_uid: Option<&str>,
) -> (res: EdgeSyncSearch)
    ensures
        res@ == edge_sync_start(
            home@,
            edition,
            match target_uid {
                Some(uid) => Some(uid@),
                None => None,
            },
        ),
{
    let candidates: Vec<FilePath> = Vec::new();
    let ordered: Vec<FilePath> = Vec::new();
    assert(paths_view(candidates@) =~= Seq::empty());
    assert(paths_view(ordered@) =~= Seq::empty());
    EdgeSyncSearch {
        home: home.clone(),
        edition,
        channel: match target_uid {
            Some(uid) => Some(message_channel(uid)),
            None => None,
        },
        phase: EdgeSyncPhase::Files,
        flags: Vec::new(),
        candidates,
        times: Vec::new(),
        ordered,
        index: 0,
        found: None,
    }
}

/// The question whether a mapping database knows a channel.
fn channel_statement(db: &FilePath, channel: &str) -> (res: Statement)
    ensures
        res@ == channel_query(db@, channel@),
{
    let mut params: Vec<SqlValue> = Vec::new();
    params.push(SqlValue::Text(channel.to_string()));
    assert(values_view(params@) =~= seq![SqlView::Text(channel@)]);
    Statement {
        db: db.clone(),
        read_only: true,
        sql: "SELECT EXISTS(SELECT 1 FROM edge_sync_mapping WHERE msg_channel = ?1)".to_string(),
        params,
    }
}

fn says_nonzero(value: Option<&SqlValue>) -> (res: bool)
    ensures
        res == is_nonzero(
            match value {
                Some(v) => Some(v@),
                None => None,
            },
        ),
{
    match value {
        Some(SqlValue::Integer(n)) => *n != 0,
        _ => false,
    }
}

impl EdgeSyncSearch {
    #[verifier::type_invariant]
    spec fn inv(self) -> bool {
        self@.well_formed()
    }

    /// Whether the search is over.
    pub fn is_over(&self) -> (res: bool)
        ensures
            res == self@.over(),
    {
        matches!(self.phase, EdgeSyncPhase::Finished)
    }

    /// The mapping database, where the search found one.
    pub fn found(self) -> (res: Option<FilePath>)
        ensures
            optional_path(res) == self@.found,
    {
        self.found
    }

    /// What the search has to know next; nothing, where it is over.
    pub fn request(&self) -> (res: Option<Request>)
        ensures
            optional_request(res) == self@.request(),
    {
        proof {
            use_type_invariant(self);
        }
        match self.phase {
            EdgeSyncPhase::Files => {
                let paths: Vec<FilePath> = edge_sync_paths(&self.home, self.edition);
                assert(paths@.len() == paths_view(paths@).len());
                Some(Request::IsFile(paths[self.flags.len()].clone()))
            },
            EdgeSyncPhase::Times => Some(
                Request::Modified(self.candidates[self.times.len()].clone()),
            ),
            EdgeSyncPhase::Probe => match &self.channel {
                Some(channel) => Some(
                    Request::Query(channel_statement(&self.ordered[self.index], channel.as_str())),
                ),
                None => None,
            },
            EdgeSyncPhase::Finished => None,
        }
    }

    fn ended(self, found: Option<FilePath>) -> (res: EdgeSyncSearch)
        ensures
            res@ == self@.ended(optional_path(found)),
    {
        EdgeSyncSearch { phase: EdgeSyncPhase::Finished, found, ..self }
    }

    /// The search after `reply`.
    pub fn advance(self, reply: Reply) -> (res: EdgeSyncSearch)
        ensures
            res@ == self@.advance(reply@),
    {
        proof {
            use_type_invariant(&self);
        }
        match self.phase {
            EdgeSyncPhase::Files => {
                let mut flags: Vec<bool> = self.flags;
                flags.push(reply.yes());
                if flags.len() < 3 {
                    EdgeSyncSearch { flags, ..self }
                } else {
                    let candidates: Vec<FilePath> = edge_sync_candidates(
                        &self.home,
                        self.edition,
                        &flags,
                    );
                    assert(candidates@.len() == paths_view(candidates@).len());
                    if candidates.len() > 0 {
                        assert(self.times@.len() == 0);
                        EdgeSyncSearch { phase: EdgeSyncPhase::Times, flags, candidates, ..self }
                    } else {
                        EdgeSyncSearch {
                            phase: EdgeSyncPhase::Finished,
                            flags,
                            candidates,
                            found: None,
                            ..self
                        }
                    }
                }
            },
            EdgeSyncPhase::Times => {
                let mut times: Vec<i128> = self.times;
                times.push(reply.time());
                if times.len() < self.candidates.len() {
                    EdgeSyncSearch { times, ..self }
                } else {
                    let ordered: Vec<FilePath> = order_by_time(&self.candidates, &times);
                    proof {
                        lemma_newest_first_len(dated(paths_view(self.candidates@), times@));
                        assert(ordered@.len() == paths_view(ordered@).len());
                    }
                    if self.channel.is_some() {
                        EdgeSyncSearch {
                            phase: EdgeSyncPhase::Probe,
                            times,
                            ordered,
                            index: 0,
                            ..self
                        }
                    } else {
                        let found: FilePath = ordered[0].clone();
                        EdgeSyncSearch {
                            phase: EdgeSyncPhase::Finished,
                            times,
                            ordered,
                            index: 0,
                            found: Some(found),
                            ..self
                        }
                    }
                }
            },
            EdgeSyncPhase::Probe => {
                assert(self.index < self.ordered.len());
                if says_nonzero(reply.first_value()) {
                    let found: FilePath = self.ordered[self.index].clone();
                    self.ended(Some(found))
                } else if self.index + 1 < self.ordered.len() {
                    let index: usize = self.index + 1;
                    EdgeSyncSearch { index, ..self }
                } else {
                    let found: FilePath = self.ordered[0].clone();
                    self.ended(Some(found))
                }
            },
            EdgeSyncPhase::Finished => self,
        }
    }
}

} // verus!
