//! Several invocations at once. Each runs its own session; what they share
//! is the lock and the files of one project. The model lets them take their
//! steps in any order, and lets the lock be taken only while nobody holds
//! it. The laws: the store is at every time what the changes on record made
//! of it, in the order in which they were made; no contribution is lost; a
//! build sees the source unit of the store as it stands; and a project
//! moves through its stages in one direction until it is started afresh.

use crate::codec::{decoded, loaded};
use crate::layout::{components_view, source_unit_path_of, store_path_of};
use crate::preamble::preamble_text;
use crate::reconstruct::{lemma_unit_of_contributions, line_break, unit_of, unit_text};
use crate::session::{follows, holds_lock, Action, Event, Outcome, Phase, Request, Session};
use crate::store::{lemma_put_all_from_nothing, ordered, put_all};
use crate::text::optional_string;
use vstd::prelude::*;

verus! {

/// A change to the store of a project.
pub enum Change {
    /// A fragment was written into the store.
    Put { identifier: Seq<char>, source_text: Seq<char> },
    /// The store was removed by a fresh start.
    Wipe,
}

/// What the invocations share: who holds the lock, by the number of the
/// invocation; whether the skeleton of the project is laid out; the text
/// of the store file and of the source unit, where they exist; and, for
/// the record, the changes that were made to the store, in their order.
pub struct Shared {
    pub holder: Option<int>,
    pub skeleton: bool,
    pub store: Option<Seq<char>>,
    pub unit: Option<Seq<char>>,
    pub record: Seq<Change>,
}

/// One invocation among several: its session, and what it asked for last.
pub struct Party {
    pub session: Session,
    pub asked: Action,
}

/// How far a project has come.
pub enum Stage {
    /// Nothing of the project exists.
    Uninitialized,
    /// The skeleton is laid out; nothing was contributed.
    Initialized,
    /// There is a store, and no source unit yet.
    Contributing,
    /// There is a source unit.
    Finalized,
}

/// The stage of a project, read from its files.
pub open spec fn stage_of(shared: Shared) -> Stage {
    if shared.unit is Some {
        Stage::Finalized
    } else if shared.store is Some {
        Stage::Contributing
    } else if shared.skeleton {
        Stage::Initialized
    } else {
        Stage::Uninitialized
    }
}

/// The change that a request makes to the store when its fragment is
/// written.
pub open spec fn contribution(request: Request) -> Change {
    match request {
        Request::Contribute { identifier, source_text, .. } => Change::Put {
            identifier: identifier@,
            source_text: source_text@,
        },
        _ => Change::Wipe,
    }
}

/// The mapping that the changes make of `base`, each applied in turn: a
/// fragment is put in, a wipe leaves nothing.
pub open spec fn replayed(base: Map<Seq<char>, Seq<char>>, record: Seq<Change>) -> Map<
    Seq<char>,
    Seq<char>,
>
    decreases record.len(),
{
    if record.len() == 0 {
        base
    } else {
        match record.last() {
            Change::Put { identifier, source_text } => replayed(base, record.drop_last()).insert(
                identifier,
                source_text,
            ),
            Change::Wipe => Map::empty(),
        }
    }
}

/// The fragments that were written since the store was wiped last, or
/// since the beginning if it never was, in the order of their writing.
pub open spec fn written_since_wipe(record: Seq<Change>) -> Seq<(Seq<char>, Seq<char>)>
    decreases record.len(),
{
    if record.len() == 0 {
        Seq::empty()
    } else {
        match record.last() {
            Change::Put { identifier, source_text } => written_since_wipe(record.drop_last()).push(
                (identifier, source_text),
            ),
            Change::Wipe => Seq::empty(),
        }
    }
}

/// The store was wiped at some time.
pub open spec fn was_wiped(record: Seq<Change>) -> bool {
    exists|k: int| 0 <= k < record.len() && #[trigger] record[k] is Wipe
}

/// The change at `k` puts a fragment in, and nothing on record after it
/// wipes the store or puts another fragment under the same identifier.
pub open spec fn stands(record: Seq<Change>, k: int) -> bool {
    &&& 0 <= k < record.len()
    &&& record[k] is Put
    &&& forall|j: int|
        k < j < record.len() ==> (#[trigger] record[j]) is Put && record[j]->identifier
            != record[k]->identifier
}

/// What was shared, after a fresh start has removed the store and the
/// source unit.
pub open spec fn wiped(before: Shared, skeleton: bool) -> Shared {
    Shared {
        holder: before.holder,
        skeleton,
        store: None,
        unit: None,
        record: before.record.push(Change::Wipe),
    }
}

/// What a write of `content` to the place `path` makes of what is shared:
/// a write to the store file is the contribution of `request` going into
/// the store; a write to the file of the source unit replaces the unit.
pub open spec fn written_to(
    before: Shared,
    name: Seq<char>,
    request: Request,
    path: Seq<Seq<char>>,
    content: Seq<char>,
) -> Shared {
    if path == store_path_of(name) {
        Shared {
            holder: before.holder,
            skeleton: before.skeleton,
            store: Some(content),
            unit: before.unit,
            record: before.record.push(contribution(request)),
        }
    } else if path == source_unit_path_of(name) {
        Shared {
            holder: before.holder,
            skeleton: before.skeleton,
            store: before.store,
            unit: Some(content),
            record: before.record,
        }
    } else {
        before
    }
}

/// What the number `i` party asked for is carried out on what is shared,
/// and `event` is what the party is told. The lock is given to a party
/// only while nobody holds it; a fresh start removes the store and the
/// source unit and lays out the skeleton, and where it fails it may have
/// done any part of that; the store is read as it stands; a write
/// that succeeds puts its text in the place of the file; the toolchain
/// and the look for the binary change nothing of what is shared; a release
/// frees the lock if the party holds it.
pub open spec fn carried_out(
    before: Shared,
    i: int,
    party: Party,
    event: Event,
    after: Shared,
) -> bool {
    match party.asked {
        Action::AcquireLock { .. } => {
            ||| before.holder is None && event is LockAcquired && after == (Shared {
                holder: Some(i),
                skeleton: before.skeleton,
                store: before.store,
                unit: before.unit,
                record: before.record,
            })
            ||| event is LockFailed && after == before
        },
        Action::Scaffold { .. } => {
            ||| event is Done && after == wiped(before, true)
            ||| {
                &&& event is Failed
                &&& after.holder == before.holder
                &&& after.unit == before.unit || after.unit is None
                &&& {
                    ||| after.store == before.store && after.record == before.record
                    ||| after.store is None && after.record == before.record.push(Change::Wipe)
                }
            }
        },
        Action::ReadStore { .. } => {
            ||| event matches Event::StoreRead { content } && optional_string(content)
                == before.store && after == before
            ||| event is Failed && after == before
        },
        Action::WriteFile { path, content } => {
            ||| event is Done && after == written_to(
                before,
                party.session.name(),
                party.session.request(),
                components_view(path@),
                content@,
            )
            ||| event is Failed && after == before
        },
        Action::RunBuild { .. } => (event is BuildRan || event is Failed) && after == before,
        Action::FindArtifact { .. } => (event is Done || event is Failed) && after == before,
        Action::ReleaseLock => {
            &&& event is Done
            &&& after == (Shared {
                holder: if before.holder == Some(i) {
                    None
                } else {
                    before.holder
                },
                skeleton: before.skeleton,
                store: before.store,
                unit: before.unit,
                record: before.record,
            })
        },
        Action::Finish { .. } => false,
    }
}

/// A step of the whole: the number `who` party has what it asked for
/// carried out and decides what to ask for next; the others stand still.
pub open spec fn takes_turn(
    before: Shared,
    parties: Seq<Party>,
    who: int,
    event: Event,
    after: Shared,
    next: Seq<Party>,
) -> bool {
    &&& 0 <= who < parties.len()
    &&& next.len() == parties.len()
    &&& carried_out(before, who, parties[who], event, after)
    &&& follows(parties[who].session, event, next[who].session, next[who].asked)
    &&& forall|j: int| 0 <= j < parties.len() && j != who ==> #[trigger] next[j] == parties[j]
}

/// The parties are about to begin: each works on the project `name` and
/// has asked for the lock; nobody holds the lock; the store file, if there
/// is one, holds a store; and nothing is on record.
pub open spec fn begins(shared: Shared, parties: Seq<Party>, name: Seq<char>) -> bool {
    &&& shared.holder is None
    &&& loaded(shared.store) is Some
    &&& shared.record.len() == 0
    &&& forall|i: int|
        0 <= i < parties.len() ==> {
            &&& (#[trigger] parties[i]).session.name() == name
            &&& parties[i].session.phase() == Phase::Locking
            &&& parties[i].asked is AcquireLock
        }
}

/// A course of events: the states of the whole from the beginning on, and
/// for each step who took it and what that party was told.
pub open spec fn is_course(
    shared: Seq<Shared>,
    parties: Seq<Seq<Party>>,
    who: Seq<int>,
    events: Seq<Event>,
    name: Seq<char>,
) -> bool {
    &&& shared.len() == events.len() + 1
    &&& parties.len() == events.len() + 1
    &&& who.len() == events.len()
    &&& begins(shared[0], parties[0], name)
    &&& forall|t: int|
        0 <= t < events.len() ==> takes_turn(
            shared[t],
            parties[t],
            who[t],
            #[trigger] events[t],
            shared[t + 1],
            parties[t + 1],
        )
}

/// The contribution is on record.
pub open spec fn was_written(shared: Shared, request: Request) -> bool {
    exists|k: int|
        0 <= k < shared.record.len() && #[trigger] shared.record[k] == contribution(request)
}

/// The party has ended with its contribution made, or is about to.
pub open spec fn has_contributed(party: Party) -> bool {
    ||| party.session.phase() == Phase::Releasing && party.session.report()
        == Outcome::Contributed
    ||| party.asked == (Action::Finish { outcome: Outcome::Contributed })
}

/// What holds of one party at every time: it asks for what its phase
/// calls for; it is the holder of the lock exactly from being given it
/// until the release is carried out; what a contribution is about to
/// write is the store as it stands with its own fragment put in, and once
/// it has written, its contribution is on record; what a finalization is
/// about to write, and then to build, is the source unit of the store as
/// it stands.
pub open spec fn party_in_order(shared: Shared, party: Party, i: int, name: Seq<char>) -> bool {
    let session = party.session;
    &&& session.name() == name
    &&& (shared.holder == Some(i)) == (holds_lock(session.phase()) || session.phase()
        == Phase::Releasing)
    &&& has_contributed(party) ==> session.request() is Contribute && was_written(
        shared,
        session.request(),
    )
    &&& match session.phase() {
        Phase::Locking => party.asked is AcquireLock,
        Phase::Scaffolding => {
            &&& session.request() is Init
            &&& party.asked is Scaffold
            &&& session.report() is Initialized
        },
        Phase::ReadingStore => !(session.request() is Init) && party.asked is ReadStore,
        Phase::WritingStore => {
            &&& session.request() matches Request::Contribute { identifier, source_text, .. }
            &&& party.asked matches Action::WriteFile { path, content }
            &&& components_view(path@) == store_path_of(name)
            &&& loaded(shared.store) matches Some(contents)
            &&& decoded(content@) == Some(contents.insert(identifier@, source_text@))
            &&& session.report() == Outcome::Contributed
        },
        Phase::WritingUnit => {
            &&& session.request() is Finalize
            &&& party.asked matches Action::WriteFile { path, content }
            &&& components_view(path@) == source_unit_path_of(name)
            &&& loaded(shared.store) matches Some(contents)
            &&& content@ == unit_of(preamble_text(), contents)
        },
        Phase::Building => {
            &&& session.request() is Finalize
            &&& party.asked is RunBuild
            &&& loaded(shared.store) matches Some(contents)
            &&& shared.unit == Some(unit_of(preamble_text(), contents))
        },
        Phase::Confirming => {
            &&& session.request() is Finalize
            &&& party.asked is FindArtifact
            &&& session.report() is Built
        },
        Phase::Releasing => party.asked is ReleaseLock,
        Phase::Finished => party.asked is Finish,
    }
}

/// What holds of the whole at every time: the store is what it was at the
/// beginning with the changes on record applied, in their order.
pub open spec fn in_order(
    base: Map<Seq<char>, Seq<char>>,
    shared: Shared,
    parties: Seq<Party>,
    name: Seq<char>,
) -> bool {
    &&& loaded(shared.store) == Some(replayed(base, shared.record))
    &&& forall|i: int|
        0 <= i < parties.len() ==> party_in_order(shared, #[trigger] parties[i], i, name)
}

/// The beginning is in order.
pub proof fn lemma_begins_in_order(shared: Shared, parties: Seq<Party>, name: Seq<char>)
    requires
        begins(shared, parties, name),
    ensures
        in_order(loaded(shared.store)->0, shared, parties, name),
{
}

/// Every step keeps the whole in order.
pub proof fn lemma_turn_keeps_order(
    base: Map<Seq<char>, Seq<char>>,
    before: Shared,
    parties: Seq<Party>,
    who: int,
    event: Event,
    after: Shared,
    next: Seq<Party>,
    name: Seq<char>,
)
    requires
        in_order(base, before, parties, name),
        takes_turn(before, parties, who, event, after, next),
    ensures
        in_order(base, after, next, name),
{
    let mover = parties[who];
    let moved = next[who];
    assert(party_in_order(before, mover, who, name));
    assert(store_path_of(name).len() != source_unit_path_of(name).len());
    if after.record != before.record {
        assert(after.record.drop_last() =~= before.record);
    }
    assert(loaded(after.store) == Some(replayed(base, after.record)));
    assert(has_contributed(moved) ==> was_written(after, moved.session.request())) by {
        if has_contributed(moved) {
            if mover.session.phase() == Phase::WritingStore {
                assert(after.record[after.record.len() - 1] == contribution(
                    moved.session.request(),
                ));
            } else {
                assert(was_written(before, mover.session.request()));
                let k = choose|k: int|
                    0 <= k < before.record.len() && #[trigger] before.record[k] == contribution(
                        mover.session.request(),
                    );
                assert(after.record[k] == before.record[k]);
            }
        }
    }
    assert(party_in_order(after, moved, who, name));
    assert forall|j: int| 0 <= j < next.len() implies party_in_order(
        after,
        #[trigger] next[j],
        j,
        name,
    ) by {
        if j != who {
            assert(next[j] == parties[j]);
            assert(party_in_order(before, parties[j], j, name));
            if has_contributed(parties[j]) {
                let k = choose|k: int|
                    0 <= k < before.record.len() && #[trigger] before.record[k] == contribution(
                        parties[j].session.request(),
                    );
                assert(after.record[k] == before.record[k]);
            }
        }
    }
}

/// At every time of a course of events the whole is in order.
pub proof fn lemma_course_in_order(
    shared: Seq<Shared>,
    parties: Seq<Seq<Party>>,
    who: Seq<int>,
    events: Seq<Event>,
    name: Seq<char>,
    t: int,
)
    requires
        is_course(shared, parties, who, events, name),
        0 <= t <= events.len(),
    ensures
        in_order(loaded(shared[0].store)->0, shared[t], parties[t], name),
        parties[t].len() == parties[0].len(),
    decreases t,
{
    if t == 0 {
        lemma_begins_in_order(shared[0], parties[0], name);
    } else {
        lemma_course_in_order(shared, parties, who, events, name, t - 1);
        assert(takes_turn(
            shared[t - 1],
            parties[t - 1],
            who[t - 1],
            events[t - 1],
            shared[t],
            parties[t],
        ));
        lemma_turn_keeps_order(
            loaded(shared[0].store)->0,
            shared[t - 1],
            parties[t - 1],
            who[t - 1],
            events[t - 1],
            shared[t],
            parties[t],
            name,
        );
    }
}

/// A fragment that stands on record is in the mapping that the record
/// makes, whatever the mapping held at first.
pub proof fn lemma_replayed_keeps_what_stands(
    base: Map<Seq<char>, Seq<char>>,
    record: Seq<Change>,
    k: int,
)
    requires
        stands(record, k),
    ensures
        replayed(base, record).dom().contains(record[k]->identifier),
        replayed(base, record)[record[k]->identifier] == record[k]->source_text,
    decreases record.len(),
{
    if k < record.len() - 1 {
        let front = record.drop_last();
        assert(record[record.len() - 1] is Put);
        assert(record[record.len() - 1]->identifier != record[k]->identifier);
        assert(front[k] == record[k]);
        assert forall|j: int| k < j < front.len() implies (#[trigger] front[j]) is Put
            && front[j]->identifier != front[k]->identifier by {
            assert(record[j] is Put);
        }
        lemma_replayed_keeps_what_stands(base, front, k);
    }
}

/// The mapping that a record makes is that of the fragments written since
/// the last wipe, put into nothing if there was a wipe, and else into what
/// the store held at first.
pub proof fn lemma_replayed_since_wipe(base: Map<Seq<char>, Seq<char>>, record: Seq<Change>)
    ensures
        replayed(base, record) == put_all(
            if was_wiped(record) {
                Map::empty()
            } else {
                base
            },
            written_since_wipe(record),
        ),
    decreases record.len(),
{
    if record.len() > 0 {
        let front = record.drop_last();
        lemma_replayed_since_wipe(base, front);
        match record.last() {
            Change::Put { identifier, source_text } => {
                let since = written_since_wipe(record);
                assert(since.drop_last() =~= written_since_wipe(front));
                if was_wiped(front) {
                    let k = choose|k: int| 0 <= k < front.len() && #[trigger] front[k] is Wipe;
                    assert(record[k] is Wipe);
                }
                if was_wiped(record) {
                    let k = choose|k: int| 0 <= k < record.len() && #[trigger] record[k] is Wipe;
                    assert(front[k] is Wipe);
                }
            },
            Change::Wipe => {
                assert(record[record.len() - 1] is Wipe);
            },
        }
    }
}

/// The store is what is on record: at every time of a course of events
/// the store file holds what it held at the beginning with the changes on
/// record applied, in the order in which they were made. So under each
/// identifier the store has the text that was written for it last.
pub proof fn lemma_store_is_what_is_on_record(
    shared: Seq<Shared>,
    parties: Seq<Seq<Party>>,
    who: Seq<int>,
    events: Seq<Event>,
    name: Seq<char>,
    t: int,
)
    requires
        is_course(shared, parties, who, events, name),
        0 <= t <= events.len(),
    ensures
        loaded(shared[t].store) == Some(replayed(loaded(shared[0].store)->0, shared[t].record)),
        forall|k: int| #[trigger]
            stands(shared[t].record, k) ==> {
                &&& loaded(shared[t].store)->0.dom().contains(shared[t].record[k]->identifier)
                &&& loaded(shared[t].store)->0[shared[t].record[k]->identifier]
                    == shared[t].record[k]->source_text
            },
{
    lemma_course_in_order(shared, parties, who, events, name, t);
    assert forall|k: int| #[trigger] stands(shared[t].record, k) implies {
        &&& loaded(shared[t].store)->0.dom().contains(shared[t].record[k]->identifier)
        &&& loaded(shared[t].store)->0[shared[t].record[k]->identifier]
            == shared[t].record[k]->source_text
    } by {
        lemma_replayed_keeps_what_stands(loaded(shared[0].store)->0, shared[t].record, k);
    }
}

/// No update is lost, whatever the timing: in every course of events, the
/// contribution of a party that has ended with its contribution made is
/// on record, however the steps of the others fall between its own. If it
/// stands, which is to say that the store was not wiped after it and
/// nothing was written under its identifier after it, then the store
/// holds its source text under its identifier.
pub proof fn lemma_no_contribution_is_lost(
    shared: Seq<Shared>,
    parties: Seq<Seq<Party>>,
    who: Seq<int>,
    events: Seq<Event>,
    name: Seq<char>,
    t: int,
    i: int,
)
    requires
        is_course(shared, parties, who, events, name),
        0 <= t <= events.len(),
        0 <= i < parties[t].len(),
        parties[t][i].asked == (Action::Finish { outcome: Outcome::Contributed }),
    ensures
        was_written(shared[t], parties[t][i].session.request()),
        forall|k: int|
            stands(shared[t].record, k) && #[trigger] shared[t].record[k] == contribution(
                parties[t][i].session.request(),
            ) ==> {
                &&& parties[t][i].session.request() matches Request::Contribute {
                    identifier,
                    source_text,
                    ..
                }
                &&& loaded(shared[t].store) matches Some(contents)
                &&& contents.dom().contains(identifier@)
                &&& contents[identifier@] == source_text@
            },
{
    lemma_course_in_order(shared, parties, who, events, name, t);
    assert(party_in_order(shared[t], parties[t][i], i, name));
    lemma_store_is_what_is_on_record(shared, parties, who, events, name, t);
}

/// Only one at a time: in every course of events, no two parties are
/// between being given the lock and the release of it at one time.
pub proof fn lemma_one_holder_at_a_time(
    shared: Seq<Shared>,
    parties: Seq<Seq<Party>>,
    who: Seq<int>,
    events: Seq<Event>,
    name: Seq<char>,
    t: int,
    i: int,
    j: int,
)
    requires
        is_course(shared, parties, who, events, name),
        0 <= t <= events.len(),
        0 <= i < parties[t].len(),
        0 <= j < parties[t].len(),
        holds_lock(parties[t][i].session.phase()),
        holds_lock(parties[t][j].session.phase()),
    ensures
        i == j,
{
    lemma_course_in_order(shared, parties, who, events, name, t);
    assert(party_in_order(shared[t], parties[t][i], i, name));
    assert(party_in_order(shared[t], parties[t][j], j, name));
}

/// A build sees the store as it stands: while a finalization waits for the
/// toolchain, the source unit on disk is the unit of the store at that
/// time. In a project that began without a store, or was started afresh
/// since, that is the preamble and then the fragments written since, in
/// strictly ascending order of their identifiers, each identifier once
/// and with the text written for it last; with no fragment written, the
/// preamble alone.
pub proof fn lemma_build_sees_the_store(
    shared: Seq<Shared>,
    parties: Seq<Seq<Party>>,
    who: Seq<int>,
    events: Seq<Event>,
    name: Seq<char>,
    t: int,
    i: int,
)
    requires
        is_course(shared, parties, who, events, name),
        0 <= t <= events.len(),
        0 <= i < parties[t].len(),
        parties[t][i].session.phase() == Phase::Building,
    ensures
        loaded(shared[t].store) matches Some(contents) && shared[t].unit == Some(
            unit_of(preamble_text(), contents),
        ),
        shared[0].store is None || was_wiped(shared[t].record) ==> shared[t].unit == Some(
            unit_text(preamble_text(), ordered(written_since_wipe(shared[t].record))),
        ),
{
    lemma_course_in_order(shared, parties, who, events, name, t);
    assert(party_in_order(shared[t], parties[t][i], i, name));
    if shared[0].store is None || was_wiped(shared[t].record) {
        let since = written_since_wipe(shared[t].record);
        lemma_replayed_since_wipe(loaded(shared[0].store)->0, shared[t].record);
        lemma_put_all_from_nothing(since);
        lemma_unit_of_contributions(preamble_text(), since);
    }
}

/// A project that was started afresh and is finalized with nothing
/// contributed between needs no store: the build sees the preamble and one
/// line break.
pub proof fn lemma_fresh_project_builds_the_preamble(
    shared: Seq<Shared>,
    parties: Seq<Seq<Party>>,
    who: Seq<int>,
    events: Seq<Event>,
    name: Seq<char>,
    t: int,
    i: int,
)
    requires
        is_course(shared, parties, who, events, name),
        0 <= t <= events.len(),
        0 <= i < parties[t].len(),
        parties[t][i].session.phase() == Phase::Building,
        shared[t].record.len() > 0,
        shared[t].record.last() is Wipe,
    ensures
        shared[t].unit == Some(preamble_text() + line_break()),
{
    lemma_build_sees_the_store(shared, parties, who, events, name, t, i);
    assert(shared[t].record[shared[t].record.len() - 1] is Wipe);
    assert(ordered(written_since_wipe(shared[t].record)) =~= Seq::empty());
}

/// The stages of a project follow one another in one direction: a step
/// leaves the stage as it is, or is a fresh start, or takes the project
/// from a stage without a store to one with a store, or from a stage
/// without a source unit to the one with it. A fresh start that succeeds
/// leaves the project initialized, with the store and the source unit
/// gone. Nothing but a fresh start takes a project back from the stage
/// that it has reached.
pub proof fn lemma_stages_go_forward(
    before: Shared,
    parties: Seq<Party>,
    who: int,
    event: Event,
    after: Shared,
    next: Seq<Party>,
)
    requires
        takes_turn(before, parties, who, event, after, next),
    ensures
        parties[who].asked is Scaffold && event is Done ==> stage_of(after) == Stage::Initialized
            && after.store is None && after.unit is None,
        !(parties[who].asked is Scaffold) ==> {
            ||| stage_of(after) == stage_of(before)
            ||| stage_of(after) == Stage::Contributing && (stage_of(before) == Stage::Uninitialized
                || stage_of(before) == Stage::Initialized)
            ||| stage_of(after) == Stage::Finalized
        },
        !(parties[who].asked is Scaffold) && stage_of(before) == Stage::Finalized ==> stage_of(after)
            == Stage::Finalized,
{
}

} // verus!
