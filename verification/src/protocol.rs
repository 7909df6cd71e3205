//! Laws of whole runs: what holds of every sequence of steps that a session
//! can take, whatever the caller reports.

use crate::builder::succeeded;
use crate::codec::loaded;
use crate::layout::{components_view, source_unit_path_of};
use crate::preamble::preamble_text;
use crate::reconstruct::{lemma_unit_of_nothing, line_break, unit_of};
use crate::session::{
    follows, holds_lock, releases, Action, Event, Failure, Outcome, Phase, Session,
};
use crate::text::optional_string;
use vstd::prelude::*;

verus! {

/// A run of a session: the states that it passes through from its start,
/// the events that the caller reports, and the actions that the session
/// asks for in answer, one step for each event.
pub open spec fn is_run(states: Seq<Session>, events: Seq<Event>, actions: Seq<Action>) -> bool {
    &&& states.len() == events.len() + 1
    &&& actions.len() == events.len()
    &&& states[0].phase() == Phase::Locking
    &&& forall|i: int|
        0 <= i < events.len() ==> follows(states[i], #[trigger] events[i], states[i + 1], actions[i])
}

/// The toolchain is reported at step `j` to have run with success, while
/// the session waited for it.
pub open spec fn build_succeeded_at(states: Seq<Session>, events: Seq<Event>, j: int) -> bool {
    &&& 0 <= j < events.len()
    &&& states[j].phase() == Phase::Building
    &&& events[j] matches Event::BuildRan { output }
    &&& succeeded(output.exit_code)
}

/// The binary is reported at step `j` to be there, while the session
/// looked for it.
pub open spec fn binary_found_at(states: Seq<Session>, events: Seq<Event>, j: int) -> bool {
    &&& 0 <= j < events.len()
    &&& states[j].phase() == Phase::Confirming
    &&& events[j] is Done
}

/// One step and the lock: a session comes to hold the lock only by being
/// told that it was taken; it ceases to hold it only by asking for its
/// release; and it never ends while it holds it.
pub proof fn lemma_step_keeps_lock_discipline(
    pre: Session,
    event: Event,
    post: Session,
    action: Action,
)
    requires
        follows(pre, event, post, action),
    ensures
        !holds_lock(pre.phase()) && holds_lock(post.phase()) ==> pre.phase() == Phase::Locking
            && event is LockAcquired,
        holds_lock(pre.phase()) ==> holds_lock(post.phase()) || releases(post, action),
        action is ReleaseLock ==> post.phase() == Phase::Releasing && (holds_lock(pre.phase())
            || (pre.phase() == Phase::Locking && event is LockAcquired)),
        action is Finish <==> post.phase() == Phase::Finished,
        action is Finish ==> !holds_lock(pre.phase()),
        pre.phase() == Phase::Releasing ==> action is Finish,
{
}

/// Release on every way out: in a run in which the lock was taken at step
/// `j` and which ended at step `k`, the session asked for the release of
/// the lock at a step from `j` on and before `k`.
pub proof fn lemma_lock_is_given_back(
    states: Seq<Session>,
    events: Seq<Event>,
    actions: Seq<Action>,
    j: int,
    k: int,
)
    requires
        is_run(states, events, actions),
        0 <= j < k < events.len(),
        states[j].phase() == Phase::Locking,
        events[j] is LockAcquired,
        actions[k] is Finish,
    ensures
        exists|i: int| j <= i < k && #[trigger] actions[i] is ReleaseLock,
{
    assert(follows(states[j], events[j], states[j + 1], actions[j]));
    lemma_release_follows(states, events, actions, j, k);
}

/// From a step that left the session holding the lock, or that asked for
/// its release, a release comes before the end.
proof fn lemma_release_follows(
    states: Seq<Session>,
    events: Seq<Event>,
    actions: Seq<Action>,
    j: int,
    k: int,
)
    requires
        is_run(states, events, actions),
        0 <= j < k < events.len(),
        holds_lock(states[j + 1].phase()) || actions[j] is ReleaseLock,
        actions[k] is Finish,
    ensures
        exists|i: int| j <= i < k && #[trigger] actions[i] is ReleaseLock,
    decreases k - j,
{
    if actions[j] is ReleaseLock {
    } else {
        assert(follows(states[j + 1], events[j + 1], states[j + 2], actions[j + 1]));
        lemma_step_keeps_lock_discipline(
            states[j + 1],
            events[j + 1],
            states[j + 2],
            actions[j + 1],
        );
        if j + 1 < k {
            lemma_release_follows(states, events, actions, j + 1, k);
            let i = choose|i: int| j + 1 <= i < k && #[trigger] actions[i] is ReleaseLock;
            assert(j <= i < k && actions[i] is ReleaseLock);
        }
    }
}

/// How many answers a session in this phase can take at most before it
/// has handed out its outcome.
pub open spec fn answers_left(phase: Phase) -> nat {
    match phase {
        Phase::Locking => 6,
        Phase::ReadingStore => 5,
        Phase::WritingUnit => 4,
        Phase::Building => 3,
        Phase::Scaffolding => 2,
        Phase::WritingStore => 2,
        Phase::Confirming => 2,
        Phase::Releasing => 1,
        Phase::Finished => 0,
    }
}

/// Every step brings the end nearer.
pub proof fn lemma_step_brings_the_end_nearer(
    pre: Session,
    event: Event,
    post: Session,
    action: Action,
)
    requires
        follows(pre, event, post, action),
    ensures
        answers_left(post.phase()) < answers_left(pre.phase()) || post.phase() == Phase::Finished,
{
}

/// A session ends: whatever it is told, after six answers at most it has
/// handed out its outcome, and it stays ended.
pub proof fn lemma_session_ends(
    states: Seq<Session>,
    events: Seq<Event>,
    actions: Seq<Action>,
    t: int,
)
    requires
        is_run(states, events, actions),
        0 <= t <= events.len(),
    ensures
        answers_left(states[t].phase()) + t <= 6 || states[t].phase() == Phase::Finished,
        t >= 6 ==> states[t].phase() == Phase::Finished,
    decreases t,
{
    if t > 0 {
        lemma_session_ends(states, events, actions, t - 1);
        assert(follows(states[t - 1], events[t - 1], states[t], actions[t - 1]));
        lemma_step_brings_the_end_nearer(states[t - 1], events[t - 1], states[t], actions[t - 1]);
    }
}

/// What a session in a run is going to report, as far as its phase tells:
/// a binary only after the toolchain was reported to have succeeded.
spec fn report_is_earned(states: Seq<Session>, events: Seq<Event>, i: int) -> bool {
    match states[i].phase() {
        Phase::Scaffolding => states[i].report() is Initialized,
        Phase::WritingStore => states[i].report() == Outcome::Contributed,
        Phase::Confirming => exists|j: int|
            j < i && #[trigger] build_succeeded_at(states, events, j),
        Phase::Releasing => states[i].report() is Built ==> {
            &&& exists|j: int| j < i && #[trigger] build_succeeded_at(states, events, j)
            &&& exists|j: int| j < i && #[trigger] binary_found_at(states, events, j)
        },
        _ => true,
    }
}

proof fn lemma_report_is_earned(
    states: Seq<Session>,
    events: Seq<Event>,
    actions: Seq<Action>,
    i: int,
)
    requires
        is_run(states, events, actions),
        0 <= i <= events.len(),
    ensures
        report_is_earned(states, events, i),
    decreases i,
{
    if i > 0 {
        lemma_report_is_earned(states, events, actions, i - 1);
        assert(follows(states[i - 1], events[i - 1], states[i], actions[i - 1]));
        if states[i].phase() == Phase::Confirming {
            assert(build_succeeded_at(states, events, i - 1));
        }
        if states[i].phase() == Phase::Releasing && states[i].report() is Built {
            assert(states[i - 1].phase() == Phase::Confirming);
            let j = choose|j: int| j < i - 1 && #[trigger] build_succeeded_at(states, events, j);
            assert(j < i && build_succeeded_at(states, events, j));
            assert(binary_found_at(states, events, i - 1));
        }
    }
}

/// A session reports a binary only if the toolchain ran with success and
/// the binary was found: in a run that ends with a binary at step `k`, an
/// earlier step reported the success of the toolchain.
pub proof fn lemma_binary_only_after_success(
    states: Seq<Session>,
    events: Seq<Event>,
    actions: Seq<Action>,
    k: int,
)
    requires
        is_run(states, events, actions),
        0 <= k < events.len(),
        ({
            &&& actions[k] matches Action::Finish { outcome }
            &&& outcome is Built
        }),
    ensures
        exists|j: int| j < k && #[trigger] build_succeeded_at(states, events, j),
        exists|j: int| j < k && #[trigger] binary_found_at(states, events, j),
{
    lemma_report_is_earned(states, events, actions, k);
    assert(follows(states[k], events[k], states[k + 1], actions[k]));
}

/// A toolchain that failed is reported as such: when the session is told,
/// while it waits for the toolchain, that it ran without success, the run
/// ends, after the release of the lock, with the failure of the build.
pub proof fn lemma_failed_build_is_reported(
    states: Seq<Session>,
    events: Seq<Event>,
    actions: Seq<Action>,
    j: int,
)
    requires
        is_run(states, events, actions),
        0 <= j,
        j + 1 < events.len(),
        states[j].phase() == Phase::Building,
        ({
            &&& events[j] matches Event::BuildRan { output }
            &&& !succeeded(output.exit_code)
        }),
    ensures
        actions[j] is ReleaseLock,
        ({
            &&& actions[j + 1] matches Action::Finish {
                outcome: Outcome::Failed { failure: Failure::Build { failure } },
            }
            &&& events[j] matches Event::BuildRan { output }
            &&& failure.exit_code == output.exit_code
            &&& failure.stdout@ == output.stdout@
            &&& failure.stderr@ == output.stderr@
        }),
{
    assert(follows(states[j], events[j], states[j + 1], actions[j]));
    assert(follows(states[j + 1], events[j + 1], states[j + 2], actions[j + 1]));
}

/// A release that fails is not passed over: a session that is told, while
/// it gives the lock back, that this could not be done, ends with a
/// failure, whatever work it has done.
pub proof fn lemma_failed_release_is_reported(
    pre: Session,
    event: Event,
    post: Session,
    action: Action,
)
    requires
        follows(pre, event, post, action),
        pre.phase() == Phase::Releasing,
        !(event is Done),
    ensures
        action matches Action::Finish { outcome } && outcome is Failed,
        !(pre.report() is Failed) ==> action == (Action::Finish {
            outcome: Outcome::Failed { failure: Failure::Release },
        }),
{
}

/// A finalization needs no store file: told that there is none, the
/// session goes on to write the source unit, which then is the preamble
/// and one line break.
pub proof fn lemma_finalize_needs_no_store(pre: Session, post: Session, action: Action)
    requires
        pre.phase() == Phase::ReadingStore,
        pre.request() is Finalize,
        follows(pre, Event::StoreRead { content: None }, post, action),
    ensures
        post.phase() == Phase::WritingUnit,
        ({
            &&& action matches Action::WriteFile { path, content }
            &&& components_view(path@) == source_unit_path_of(pre.name())
            &&& content@ == preamble_text() + line_break()
        }),
{
    lemma_unit_of_nothing(preamble_text());
}

/// The source unit is written before the toolchain is run: where a step
/// asks for the toolchain, the step before it asked for the source unit to
/// be written, with the unit of the store that had just been read, and the
/// caller has reported that it was written.
pub proof fn lemma_unit_is_written_before_build(
    states: Seq<Session>,
    events: Seq<Event>,
    actions: Seq<Action>,
    k: int,
)
    requires
        is_run(states, events, actions),
        0 <= k < events.len(),
        actions[k] is RunBuild,
    ensures
        k >= 1,
        events[k] is Done,
        states[k].request() is Finalize,
        ({
            &&& events[k - 1] matches Event::StoreRead { content }
            &&& loaded(optional_string(content)) matches Some(contents)
            &&& actions[k - 1] matches Action::WriteFile { path, content: unit }
            &&& components_view(path@) == source_unit_path_of(states[k].name())
            &&& unit@ == unit_of(preamble_text(), contents)
        }),
{
    assert(follows(states[k], events[k], states[k + 1], actions[k]));
    assert(states[k].phase() == Phase::WritingUnit);
    assert(k >= 1);
    assert(follows(states[k - 1], events[k - 1], states[k], actions[k - 1]));
}

} // verus!
