//! The one state machine the tool embodies. An invocation moves strictly
//! downward through fetch, compare and merge: the unverified boundary
//! performs each requested action against the on-disk repository and hands
//! the observed result back as an event; this module decides, from the
//! current state and that event, what the next state and the next action
//! are, and with what outcome the invocation ends.

use vstd::prelude::*;

use crate::bytes_eq;
use crate::errors::{FailCause, ErrorKind, PullError, Stage, kind_of_cause};

verus! {

/// How an invocation ended.
#[derive(Clone, Copy, Debug, PartialEq, Eq, Structural)]
pub enum Outcome {
    /// The local tip already equals the fetched remote tip; nothing was merged.
    UpToDate,
    /// The tips differed and the merge incorporated the remote changes.
    Merged,
    /// A stage failed; the invocation is over.
    Failed { error: PullError },
}

/// What the driver is asked to do next against the repository.
#[derive(Clone, Copy, Debug, PartialEq, Eq, Structural)]
pub enum Action {
    /// Fetch the monitored branch from the configured remote.
    DoFetch,
    /// Read the local branch tip (HEAD peeled to a commit).
    DoReadLocalTip,
    /// Merge the fetched tip into the current branch, failing on conflict.
    DoMerge,
    /// Stop: the invocation has finished.
    Halt,
}

/// The state of one invocation.
pub enum Step {
    /// Waiting for the fetch of the remote branch tip.
    Fetching,
    /// The remote tip is known; waiting for the local tip to compare against.
    Comparing { remote_tip: Vec<u8> },
    /// The tips differ; waiting for the merge to finish.
    Merging { remote_tip: Vec<u8> },
    /// The invocation is over.
    Finished { outcome: Outcome },
}

/// The mathematical value of a `Step`: the same shape over byte sequences.
pub enum StepModel {
    Fetching,
    Comparing { remote_tip: Seq<u8> },
    Merging { remote_tip: Seq<u8> },
    Finished { outcome: Outcome },
}

impl View for Step {
    type V = StepModel;

    open spec fn view(&self) -> StepModel {
        match self {
            Step::Fetching => StepModel::Fetching,
            Step::Comparing { remote_tip } => StepModel::Comparing { remote_tip: remote_tip@ },
            Step::Merging { remote_tip } => StepModel::Merging { remote_tip: remote_tip@ },
            Step::Finished { outcome } => StepModel::Finished { outcome: *outcome },
        }
    }
}

/// What the driver observed while performing the requested action.
pub enum Event {
    /// The fetch succeeded and resolved the fetch marker to this commit id.
    FetchSucceeded { remote_tip: Vec<u8> },
    /// The fetch stage failed for this cause.
    FetchFailed { cause: FailCause },
    /// The local branch tip was read as this commit id.
    LocalTipRead { local_tip: Vec<u8> },
    /// The local branch tip could not be read.
    LocalTipUnreadable { cause: FailCause },
    /// The merge incorporated the remote changes.
    MergeSucceeded,
    /// The merge stage failed for this cause (a conflict among them).
    MergeFailed { cause: FailCause },
}

/// The mathematical value of an `Event`.
pub enum EventModel {
    FetchSucceeded { remote_tip: Seq<u8> },
    FetchFailed { cause: FailCause },
    LocalTipRead { local_tip: Seq<u8> },
    LocalTipUnreadable { cause: FailCause },
    MergeSucceeded,
    MergeFailed { cause: FailCause },
}

impl View for Event {
    type V = EventModel;

    open spec fn view(&self) -> EventModel {
        match self {
            Event::FetchSucceeded { remote_tip } => EventModel::FetchSucceeded {
                remote_tip: remote_tip@,
            },
            Event::FetchFailed { cause } => EventModel::FetchFailed { cause: *cause },
            Event::LocalTipRead { local_tip } => EventModel::LocalTipRead {
                local_tip: local_tip@,
            },
            Event::LocalTipUnreadable { cause } => EventModel::LocalTipUnreadable {
                cause: *cause,
            },
            Event::MergeSucceeded => EventModel::MergeSucceeded,
            Event::MergeFailed { cause } => EventModel::MergeFailed { cause: *cause },
        }
    }
}

/// The next state and action after one step.
pub struct Transition {
    pub state: Step,
    pub action: Action,
}

/// True when the event is one the state can be waiting for.
pub open spec fn accepts(s: StepModel, e: EventModel) -> bool {
    match s {
        StepModel::Fetching => e is FetchSucceeded || e is FetchFailed,
        StepModel::Comparing { .. } => e is LocalTipRead || e is LocalTipUnreadable,
        StepModel::Merging { .. } => e is MergeSucceeded || e is MergeFailed,
        StepModel::Finished { .. } => false,
    }
}

/// The transition relation of the pipeline, as a function: from a state and
/// the event observed in it, the next state and the next requested action.
/// On a pair that `accepts` refuses it stays in place and halts.
pub open spec fn spec_step(s: StepModel, e: EventModel) -> (StepModel, Action) {
    match (s, e) {
        (StepModel::Fetching, EventModel::FetchSucceeded { remote_tip }) => (
            StepModel::Comparing { remote_tip },
            Action::DoReadLocalTip,
        ),
        (StepModel::Fetching, EventModel::FetchFailed { cause }) => (
            StepModel::Finished {
                outcome: Outcome::Failed {
                    error: PullError { stage: Stage::Fetch, kind: kind_of_cause(cause) },
                },
            },
            Action::Halt,
        ),
        (StepModel::Comparing { remote_tip }, EventModel::LocalTipRead { local_tip }) => if local_tip
            == remote_tip {
            (StepModel::Finished { outcome: Outcome::UpToDate }, Action::Halt)
        } else {
            (StepModel::Merging { remote_tip }, Action::DoMerge)
        },
        (StepModel::Comparing { .. }, EventModel::LocalTipUnreadable { cause }) => (
            StepModel::Finished {
                outcome: Outcome::Failed {
                    error: PullError { stage: Stage::Compare, kind: kind_of_cause(cause) },
                },
            },
            Action::Halt,
        ),
        (StepModel::Merging { .. }, EventModel::MergeSucceeded) => (
            StepModel::Finished { outcome: Outcome::Merged },
            Action::Halt,
        ),
        (StepModel::Merging { .. }, EventModel::MergeFailed { cause }) => (
            StepModel::Finished {
                outcome: Outcome::Failed {
                    error: PullError { stage: Stage::Merge, kind: kind_of_cause(cause) },
                },
            },
            Action::Halt,
        ),
        (_, _) => (s, Action::Halt),
    }
}

/// The state every invocation starts in, with the action it first requests.
pub fn start() -> (r: Transition)
    ensures
        r.state@ == StepModel::Fetching,
        r.action == Action::DoFetch,
{
    Transition { state: Step::Fetching, action: Action::DoFetch }
}

/// The comparator: true exactly when the local tip and the remote tip are
/// different commit identifiers. A strict equality check, not an ancestry
/// check: a diverged local branch also counts as differing.
pub fn differs(local_tip: &Vec<u8>, remote_tip: &Vec<u8>) -> (r: bool)
    ensures
        r == (local_tip@ != remote_tip@),
{
    !bytes_eq(local_tip, remote_tip)
}

/// Performs one step of the pipeline: consumes the event observed while
/// carrying out the previous action and returns the next state and action.
pub fn step(state: Step, event: Event) -> (r: Transition)
    requires
        accepts(state@, event@),
    ensures
        r.state@ == spec_step(state@, event@).0,
        r.action == spec_step(state@, event@).1,
{
    match (state, event) {
        (Step::Fetching, Event::FetchSucceeded { remote_tip }) => Transition {
            state: Step::Comparing { remote_tip },
            action: Action::DoReadLocalTip,
        },
        (Step::Fetching, Event::FetchFailed { cause }) => Transition {
            state: Step::Finished {
                outcome: Outcome::Failed { error: crate::errors::classify(Stage::Fetch, cause) },
            },
            action: Action::Halt,
        },
        (Step::Comparing { remote_tip }, Event::LocalTipRead { local_tip }) => if differs(
            &local_tip,
            &remote_tip,
        ) {
            Transition { state: Step::Merging { remote_tip }, action: Action::DoMerge }
        } else {
            Transition {
                state: Step::Finished { outcome: Outcome::UpToDate },
                action: Action::Halt,
            }
        },
        (Step::Comparing { .. }, Event::LocalTipUnreadable { cause }) => Transition {
            state: Step::Finished {
                outcome: Outcome::Failed { error: crate::errors::classify(Stage::Compare, cause) },
            },
            action: Action::Halt,
        },
        (Step::Merging { .. }, Event::MergeSucceeded) => Transition {
            state: Step::Finished { outcome: Outcome::Merged },
            action: Action::Halt,
        },
        (Step::Merging { .. }, Event::MergeFailed { cause }) => Transition {
            state: Step::Finished {
                outcome: Outcome::Failed { error: crate::errors::classify(Stage::Merge, cause) },
            },
            action: Action::Halt,
        },
        (s, _) => Transition { state: s, action: Action::Halt },
    }
}

/// The state reached after consuming a sequence of events, one step each.
pub open spec fn final_state(s: StepModel, events: Seq<EventModel>) -> StepModel
    decreases events.len(),
{
    if events.len() == 0 {
        s
    } else {
        final_state(spec_step(s, events[0]).0, events.drop_first())
    }
}

/// The actions requested along a run, in order.
pub open spec fn actions_of(s: StepModel, events: Seq<EventModel>) -> Seq<Action>
    decreases events.len(),
{
    if events.len() == 0 {
        Seq::empty()
    } else {
        seq![spec_step(s, events[0]).1] + actions_of(spec_step(s, events[0]).0, events.drop_first())
    }
}

/// When the fetched remote tip equals the local tip, the invocation ends up
/// to date and no merge is ever requested: with no remote change the run
/// asks for nothing that would mutate the local branch, so repeating it
/// leaves the repository as it is.
pub proof fn lemma_equal_tips_end_up_to_date(tip: Seq<u8>)
    ensures
        final_state(
            StepModel::Fetching,
            seq![
                EventModel::FetchSucceeded { remote_tip: tip },
                EventModel::LocalTipRead { local_tip: tip },
            ],
        ) == (StepModel::Finished { outcome: Outcome::UpToDate }),
        !actions_of(
            StepModel::Fetching,
            seq![
                EventModel::FetchSucceeded { remote_tip: tip },
                EventModel::LocalTipRead { local_tip: tip },
            ],
        ).contains(Action::DoMerge),
{
    reveal_with_fuel(final_state, 4);
    reveal_with_fuel(actions_of, 4);
    let events = seq![
        EventModel::FetchSucceeded { remote_tip: tip },
        EventModel::LocalTipRead { local_tip: tip },
    ];
    assert(events.drop_first() =~= seq![EventModel::LocalTipRead { local_tip: tip }]);
    assert(events.drop_first().drop_first() =~= Seq::<EventModel>::empty());
    assert(actions_of(StepModel::Fetching, events) =~= seq![
        Action::DoReadLocalTip,
        Action::Halt,
    ]);
    assert forall|i: int| 0 <= i < 2 implies actions_of(StepModel::Fetching, events)[i]
        != Action::DoMerge by {}
}

/// When the tips differ a merge is requested, and when that merge reports
/// success the invocation ends merged: for a repository behind the remote
/// by linear commits, one run ends with the remote changes incorporated.
pub proof fn lemma_differing_tips_merge(remote: Seq<u8>, local: Seq<u8>)
    requires
        local != remote,
    ensures
        final_state(
            StepModel::Fetching,
            seq![
                EventModel::FetchSucceeded { remote_tip: remote },
                EventModel::LocalTipRead { local_tip: local },
                EventModel::MergeSucceeded,
            ],
        ) == (StepModel::Finished { outcome: Outcome::Merged }),
        actions_of(
            StepModel::Fetching,
            seq![
                EventModel::FetchSucceeded { remote_tip: remote },
                EventModel::LocalTipRead { local_tip: local },
                EventModel::MergeSucceeded,
            ],
        ) =~= seq![Action::DoReadLocalTip, Action::DoMerge, Action::Halt],
{
    reveal_with_fuel(final_state, 5);
    reveal_with_fuel(actions_of, 5);
    let events = seq![
        EventModel::FetchSucceeded { remote_tip: remote },
        EventModel::LocalTipRead { local_tip: local },
        EventModel::MergeSucceeded,
    ];
    assert(events.drop_first() =~= seq![
        EventModel::LocalTipRead { local_tip: local },
        EventModel::MergeSucceeded,
    ]);
    assert(events.drop_first().drop_first() =~= seq![EventModel::MergeSucceeded]);
    assert(events.drop_first().drop_first().drop_first() =~= Seq::<EventModel>::empty());
}

/// When the merge reports a conflict the invocation fails with a conflict
/// error in the merge stage, and nothing further is requested of the
/// repository after the failure.
pub proof fn lemma_conflict_fails(remote: Seq<u8>, local: Seq<u8>)
    requires
        local != remote,
    ensures
        final_state(
            StepModel::Fetching,
            seq![
                EventModel::FetchSucceeded { remote_tip: remote },
                EventModel::LocalTipRead { local_tip: local },
                EventModel::MergeFailed { cause: FailCause::Conflict },
            ],
        ) == (StepModel::Finished {
            outcome: Outcome::Failed {
                error: PullError { stage: Stage::Merge, kind: ErrorKind::ConflictError },
            },
        }),
{
    reveal_with_fuel(final_state, 5);
    reveal_with_fuel(actions_of, 5);
    let events = seq![
        EventModel::FetchSucceeded { remote_tip: remote },
        EventModel::LocalTipRead { local_tip: local },
        EventModel::MergeFailed { cause: FailCause::Conflict },
    ];
    assert(events.drop_first() =~= seq![
        EventModel::LocalTipRead { local_tip: local },
        EventModel::MergeFailed { cause: FailCause::Conflict },
    ]);
    assert(events.drop_first().drop_first() =~= seq![
        EventModel::MergeFailed { cause: FailCause::Conflict },
    ]);
    assert(events.drop_first().drop_first().drop_first() =~= Seq::<EventModel>::empty());
}

/// A fetch that fails because the named remote is not configured ends the
/// invocation at once with a configuration error: after that failure the
/// machine requests no action at all, in particular nothing that would
/// touch the network.
pub proof fn lemma_missing_remote_is_config_error()
    ensures
        final_state(
            StepModel::Fetching,
            seq![EventModel::FetchFailed { cause: FailCause::RemoteMissing }],
        ) == (StepModel::Finished {
            outcome: Outcome::Failed {
                error: PullError { stage: Stage::Fetch, kind: ErrorKind::ConfigError },
            },
        }),
        actions_of(
            StepModel::Fetching,
            seq![EventModel::FetchFailed { cause: FailCause::RemoteMissing }],
        ) =~= seq![Action::Halt],
{
    reveal_with_fuel(final_state, 3);
    reveal_with_fuel(actions_of, 3);
    let events = seq![EventModel::FetchFailed { cause: FailCause::RemoteMissing }];
    assert(events.drop_first() =~= Seq::<EventModel>::empty());
}

/// A fetch whose credential is rejected ends the invocation at once with an
/// authentication error: the run never proceeds silently past the failure.
pub proof fn lemma_rejected_credential_is_auth_error()
    ensures
        final_state(
            StepModel::Fetching,
            seq![EventModel::FetchFailed { cause: FailCause::AuthRejected }],
        ) == (StepModel::Finished {
            outcome: Outcome::Failed {
                error: PullError { stage: Stage::Fetch, kind: ErrorKind::AuthError },
            },
        }),
        actions_of(
            StepModel::Fetching,
            seq![EventModel::FetchFailed { cause: FailCause::AuthRejected }],
        ) =~= seq![Action::Halt],
{
    reveal_with_fuel(final_state, 3);
    reveal_with_fuel(actions_of, 3);
    let events = seq![EventModel::FetchFailed { cause: FailCause::AuthRejected }];
    assert(events.drop_first() =~= Seq::<EventModel>::empty());
}

/// A finished invocation is inert: whatever event is fed to it, it stays
/// finished with the same outcome and requests nothing.
pub proof fn lemma_finished_is_terminal(outcome: Outcome, e: EventModel)
    ensures
        spec_step(StepModel::Finished { outcome }, e) == (
            StepModel::Finished { outcome },
            Action::Halt,
        ),
{
}

} // verus!
