//! What holds of the library as a whole.
pub mod decoding;
pub mod models;
pub mod state;
pub mod wire;
pub mod world;

use crate::codec::{parsed_json, plain_within, reads_as};
use crate::decode::{
    decoded_event, decoded_pane, decoded_panes, decoded_snapshot_result, decoded_status_event,
    status_name, status_named, DecodeErrorView, PaneForm,
};
use crate::driver::{driver_of, Answer, DriverView, PendingView, TaskView};
use crate::json::JsonView;
use crate::launch::{launches, LaunchStepView, LaunchView};
use crate::messages::{
    buffered_events, lifecycle_line, lifecycle_message_of, lifecycle_step, names_lifecycle_event,
    response_line, status_line, status_message_of, status_step, step_for_line, MessageErrorView,
    ReaderEventView, ReaderStepView,
};
use crate::model::{AgentStatus, EventView, MessageView, PaneView};
use crate::monitor::{CaffeinateAction, MonitorView, ReactionView};
use crate::replies::{
    acknowledges, handshake_next, refuses, reply_of, snapshot_next, snapshot_reply, HandshakeView,
    ReplyView, SnapshotView,
};
use crate::requests::{global_request_id, snapshot_request_id, status_request_id};
use crate::startup::{StartupStepView, StartupView};
use crate::statuses::{any_working, statuses_of, with_report};
use vstd::prelude::*;

verus! {

/// A message that the main loop takes in, and how the work that it asks for turns out: whether a
/// subscription starts, whether the `caffeinate` process is found to have exited, and whether a
/// new one starts.
pub struct Round {
    pub message: MessageView,
    pub subscribed: bool,
    pub exited: bool,
    pub started: bool,
}

/// What is known once `caffeinate` has been reconciled with the statuses.
pub open spec fn after_reconciling(
    state: MonitorView,
    exited: bool,
    started: bool,
) -> MonitorView {
    let (next, action) = state.reconciled(exited);
    if action == CaffeinateAction::Start {
        next.after_starting(started)
    } else {
        next
    }
}

/// What is known after the subscription that a reaction asks for, if it asks for one.
pub open spec fn after_reaction(
    state: MonitorView,
    reaction: ReactionView,
    subscribed: bool,
) -> MonitorView {
    match reaction {
        ReactionView::PaneCreated { pane, subscribe: true } => state.after_subscribing(
            pane.pane_id,
            subscribed,
        ),
        _ => state,
    }
}

/// What is known after a round. A message that cannot be decoded changes nothing.
pub open spec fn after_round(state: MonitorView, round: Round) -> MonitorView {
    match state.after_message(round.message) {
        Err(_) => state,
        Ok((next, reaction)) => {
            let next = after_reaction(next, reaction, round.subscribed);
            if reaction is LifecycleSocketClosed {
                next
            } else {
                after_reconciling(next, round.exited, round.started)
            }
        },
    }
}

/// The answer to a task in a round.
pub open spec fn answer_in(round: Round, task: TaskView) -> Answer {
    match task {
        TaskView::Subscribe(_) => Answer::Subscribed(round.subscribed),
        TaskView::Poll => Answer::Polled(round.exited),
        TaskView::Start => Answer::Started(round.started),
        _ => Answer::Done,
    }
}

/// Where the main loop stands once it has answered tasks until it is to wait, or has answered
/// `limit` of them.
pub open spec fn after_tasks(
    state: DriverView,
    task: TaskView,
    round: Round,
    limit: nat,
) -> DriverView
    decreases limit,
{
    if task is Wait || limit == 0 {
        state
    } else {
        let (next, following) = state.after_answer(answer_in(round, task));
        after_tasks(next, following, round, (limit - 1) as nat)
    }
}

/// The main loop does a round by taking in the message and answering the tasks that follow: at
/// most three, after which it waits for the next message.
pub proof fn law_tasks_make_a_round(state: DriverView, round: Round)
    ensures
        match state.after_message(round.message) {
            Ok((next, _, task)) => after_tasks(next, task, round, 3) == (DriverView {
                monitor: after_round(state.monitor, round),
                pending: PendingView::Nothing,
            }),
            Err(_) => after_round(state.monitor, round) == state.monitor,
        },
{
    reveal_with_fuel(after_tasks, 4);
}

/// What is known after several rounds.
pub open spec fn after_rounds(state: MonitorView, rounds: Seq<Round>) -> MonitorView
    decreases rounds.len(),
{
    if rounds.len() == 0 {
        state
    } else {
        after_round(after_rounds(state, rounds.drop_last()), rounds.last())
    }
}

/// What is known once a snapshot has been taken in and `caffeinate` reconciled with it.
pub open spec fn at_start(panes: Seq<PaneView>, started: bool) -> MonitorView {
    after_reconciling(
        MonitorView {
            statuses: statuses_of(panes),
            subscriptions: Set::empty(),
            caffeinated: false,
        },
        false,
        started,
    )
}

/// A machine that is awake exactly if some pane is working stays so, whatever messages come, as
/// long as every attempt to start `caffeinate` succeeds.
pub proof fn law_rounds_keep_awake_exactly(state: MonitorView, rounds: Seq<Round>)
    requires
        state.caffeinated == state.working(),
        forall|i: int| 0 <= i < rounds.len() ==> (#[trigger] rounds[i]).started,
    ensures
        after_rounds(state, rounds).caffeinated == after_rounds(state, rounds).working(),
    decreases rounds.len(),
{
    if rounds.len() > 0 {
        let front = rounds.drop_last();
        assert forall|i: int| 0 <= i < front.len() implies (#[trigger] front[i]).started by {
            assert(rounds[i].started);
        }
        law_rounds_keep_awake_exactly(state, front);
        assert(rounds[rounds.len() - 1].started);
    }
}

/// The machine is kept awake exactly while some pane is working, from the snapshot on and
/// whatever messages come, as long as every attempt to start `caffeinate` succeeds.
pub proof fn law_awake_exactly_while_working(panes: Seq<PaneView>, rounds: Seq<Round>)
    requires
        forall|i: int| 0 <= i < rounds.len() ==> (#[trigger] rounds[i]).started,
    ensures
        after_rounds(at_start(panes, true), rounds).caffeinated == after_rounds(
            at_start(panes, true),
            rounds,
        ).working(),
{
    law_rounds_keep_awake_exactly(at_start(panes, true), rounds);
}

/// The tasks that follow the snapshot, two at most, reconcile `caffeinate` with it and leave the
/// main loop waiting for the first message.
pub proof fn law_tasks_make_the_start(panes: Seq<PaneView>, round: Round)
    ensures
        after_tasks(driver_of(panes), TaskView::Poll, round, 2) == (DriverView {
            monitor: at_start(panes, round.started),
            pending: PendingView::Nothing,
        }),
{
    reveal_with_fuel(after_tasks, 3);
}

/// What is known once each of the panes `pane_ids` has been watched in turn, where the
/// subscriptions to the panes in `starting` start and no others do.
pub open spec fn after_watching_each(
    state: DriverView,
    pane_ids: Seq<Seq<char>>,
    starting: Set<Seq<char>>,
) -> DriverView
    decreases pane_ids.len(),
{
    if pane_ids.len() == 0 {
        state
    } else {
        let pane_id = pane_ids.last();
        let (next, task) = after_watching_each(
            state,
            pane_ids.drop_last(),
            starting,
        ).after_watching(pane_id);
        if task is Wait {
            next
        } else {
            next.after_answer(Answer::Subscribed(starting.contains(pane_id))).0
        }
    }
}

/// Watching panes subscribes to each of them whose subscription starts, whatever becomes of the
/// others, and changes nothing else.
pub proof fn law_watching_subscribes(
    state: DriverView,
    pane_ids: Seq<Seq<char>>,
    starting: Set<Seq<char>>,
)
    requires
        state.pending is Nothing,
    ensures
        ({
            let after = after_watching_each(state, pane_ids, starting);
            &&& after.pending is Nothing
            &&& after.monitor.statuses == state.monitor.statuses
            &&& after.monitor.caffeinated == state.monitor.caffeinated
            &&& forall|pane_id: Seq<char>| #[trigger]
                after.monitor.subscriptions.contains(pane_id) <==> (
                state.monitor.subscriptions.contains(pane_id) || (pane_ids.contains(pane_id)
                    && starting.contains(pane_id)))
        }),
    decreases pane_ids.len(),
{
    if pane_ids.len() > 0 {
        let front = pane_ids.drop_last();
        law_watching_subscribes(state, front, starting);
        let before = after_watching_each(state, front, starting);
        let after = after_watching_each(state, pane_ids, starting);
        assert forall|pane_id: Seq<char>| #[trigger]
            after.monitor.subscriptions.contains(pane_id) <==> (
            state.monitor.subscriptions.contains(pane_id) || (pane_ids.contains(pane_id)
                && starting.contains(pane_id))) by {
            assert(before.monitor.subscriptions.contains(pane_id) <==> (
            state.monitor.subscriptions.contains(pane_id) || (front.contains(pane_id)
                && starting.contains(pane_id))));
            if front.contains(pane_id) {
                let i = choose|i: int| 0 <= i < front.len() && front[i] == pane_id;
                assert(pane_ids[i] == pane_id);
            }
            if pane_ids.contains(pane_id) && pane_id != pane_ids.last() {
                let i = choose|i: int| 0 <= i < pane_ids.len() && pane_ids[i] == pane_id;
                assert(front[i] == pane_id);
            }
            assert(pane_ids[pane_ids.len() - 1] == pane_ids.last());
        }
    }
}

/// Once every known pane has been watched, and every subscription has started, exactly the known
/// panes are subscribed to.
pub proof fn law_every_pane_is_watched(state: DriverView, pane_ids: Seq<Seq<char>>)
    requires
        state.pending is Nothing,
        state.monitor.subscriptions.subset_of(state.monitor.statuses.dom()),
        pane_ids.to_set() == state.monitor.statuses.dom(),
    ensures
        after_watching_each(state, pane_ids, pane_ids.to_set()).monitor.subscriptions
            == state.monitor.statuses.dom(),
{
    law_watching_subscribes(state, pane_ids, pane_ids.to_set());
    let after = after_watching_each(state, pane_ids, pane_ids.to_set());
    assert forall|pane_id: Seq<char>|
        after.monitor.subscriptions.contains(pane_id) <==> state.monitor.statuses.dom().contains(
            pane_id,
        ) by {
        assert(pane_ids.to_set().contains(pane_id) <==> pane_ids.contains(pane_id));
    }
}

/// How the work of a task that the launch hands out turns out: as `start` says, and with a
/// subscription that starts if its pane is in `starting`.
pub open spec fn outcome_of(task: TaskView, start: Round, starting: Set<Seq<char>>) -> Round {
    Round {
        subscribed: match task {
            TaskView::Subscribe(pane_id) => starting.contains(pane_id),
            _ => false,
        },
        ..start
    }
}

/// Where the main loop stands when the launch is over, and why the launch failed, if it did. The
/// tasks of each step are answered: those of the kept messages as `rounds` say, in turn, and the
/// others as `start` and `starting` say.
pub open spec fn after_launch(
    state: LaunchView,
    start: Round,
    starting: Set<Seq<char>>,
    rounds: Seq<Round>,
) -> (DriverView, Option<MessageErrorView>)
    decreases state.left(),
{
    match state.next() {
        LaunchStepView::Perform { task, next } => {
            let driver = after_tasks(next.driver, task, outcome_of(task, start, starting), 3);
            after_launch(LaunchView { driver, ..next }, start, starting, rounds)
        },
        LaunchStepView::Handled { task, next, .. } => {
            let driver = after_tasks(next.driver, task, rounds.first(), 3);
            after_launch(LaunchView { driver, ..next }, start, starting, rounds.drop_first())
        },
        LaunchStepView::Ignored { next, .. } => after_launch(
            next,
            start,
            starting,
            rounds.drop_first(),
        ),
        LaunchStepView::Failed(error) => (state.driver, Some(error)),
        LaunchStepView::Live(driver) => (driver, None),
    }
}

/// The first of several rounds comes before the others.
proof fn lemma_first_round(state: MonitorView, rounds: Seq<Round>)
    requires
        rounds.len() > 0,
    ensures
        after_rounds(state, rounds) == after_rounds(
            after_round(state, rounds.first()),
            rounds.drop_first(),
        ),
    decreases rounds.len(),
{
    if rounds.len() > 1 {
        lemma_first_round(state, rounds.drop_last());
        assert(rounds.drop_first().drop_last() =~= rounds.drop_last().drop_first());
    } else {
        assert(rounds.drop_last() =~= Seq::empty());
        assert(rounds.drop_first() =~= Seq::empty());
        assert(after_rounds(state, rounds.drop_last()) == state);
    }
}

/// The first of several panes is watched before the others.
proof fn lemma_first_watched(
    state: DriverView,
    pane_ids: Seq<Seq<char>>,
    starting: Set<Seq<char>>,
)
    requires
        pane_ids.len() > 0,
    ensures
        after_watching_each(state, pane_ids, starting) == after_watching_each(
            after_watching_each(state, seq![pane_ids.first()], starting),
            pane_ids.drop_first(),
            starting,
        ),
    decreases pane_ids.len(),
{
    if pane_ids.len() > 1 {
        lemma_first_watched(state, pane_ids.drop_last(), starting);
        assert(pane_ids.drop_first().drop_last() =~= pane_ids.drop_last().drop_first());
    } else {
        assert(pane_ids =~= seq![pane_ids.first()]);
        assert(pane_ids.drop_first() =~= Seq::empty());
    }
}

/// The kept messages are taken in one after the other.
proof fn lemma_launch_messages(
    state: LaunchView,
    start: Round,
    starting: Set<Seq<char>>,
    rounds: Seq<Round>,
)
    requires
        state.task is None,
        state.unwatched.len() == 0,
        state.driver.pending is Nothing,
        rounds.len() == state.messages.len(),
        forall|i: int|
            0 <= i < rounds.len() ==> (#[trigger] rounds[i]).message == state.messages[i],
    ensures
        after_launch(state, start, starting, rounds) == (
            DriverView {
                monitor: after_rounds(state.driver.monitor, rounds),
                pending: PendingView::Nothing,
            },
            state.failure,
        ),
    decreases state.messages.len(),
{
    if state.messages.len() > 0 {
        let round = rounds[0];
        assert(round.message == state.messages.first());
        law_tasks_make_a_round(state.driver, round);
        let driver = DriverView {
            monitor: after_round(state.driver.monitor, round),
            pending: PendingView::Nothing,
        };
        let rest = LaunchView { driver, messages: state.messages.drop_first(), ..state };
        let later = rounds.drop_first();
        assert forall|i: int| 0 <= i < later.len() implies (#[trigger] later[i]).message
            == rest.messages[i] by {
            assert(later[i] == rounds[i + 1]);
        }
        lemma_launch_messages(rest, start, starting, later);
        lemma_first_round(state.driver.monitor, rounds);
    }
}

/// The panes are watched one after the other, before the kept messages are taken in.
proof fn lemma_launch_watches(
    state: LaunchView,
    start: Round,
    starting: Set<Seq<char>>,
    rounds: Seq<Round>,
)
    requires
        state.task is None,
        state.driver.pending is Nothing,
        rounds.len() == state.messages.len(),
        forall|i: int|
            0 <= i < rounds.len() ==> (#[trigger] rounds[i]).message == state.messages[i],
    ensures
        after_launch(state, start, starting, rounds) == (
            DriverView {
                monitor: after_rounds(
                    after_watching_each(state.driver, state.unwatched, starting).monitor,
                    rounds,
                ),
                pending: PendingView::Nothing,
            },
            state.failure,
        ),
    decreases state.unwatched.len(),
{
    if state.unwatched.len() > 0 {
        let pane_id = state.unwatched.first();
        let (waiting, task) = state.driver.after_watching(pane_id);
        reveal_with_fuel(after_tasks, 4);
        reveal_with_fuel(after_watching_each, 2);
        let driver = after_tasks(waiting, task, outcome_of(task, start, starting), 3);
        assert(seq![pane_id].drop_last() =~= Seq::empty());
        assert(driver == after_watching_each(state.driver, seq![pane_id], starting));
        let rest = LaunchView { driver, unwatched: state.unwatched.drop_first(), ..state };
        lemma_launch_watches(rest, start, starting, rounds);
        lemma_first_watched(state.driver, state.unwatched, starting);
    } else {
        assert(state.unwatched =~= Seq::empty());
        lemma_launch_messages(state, start, starting, rounds);
    }
}

/// The launch keeps its order: `caffeinate` is reconciled with the snapshot, then every pane is
/// watched, then the kept lines are taken in, each in its round; after that live messages are
/// waited for, unless a kept line could not be read.
pub proof fn law_launch_keeps_its_order(
    panes: Seq<PaneView>,
    buffered: Seq<Seq<char>>,
    launch: LaunchView,
    start: Round,
    starting: Set<Seq<char>>,
    rounds: Seq<Round>,
)
    requires
        launches(launch, driver_of(panes), TaskView::Poll, buffered),
        rounds.len() == launch.messages.len(),
        forall|i: int|
            0 <= i < rounds.len() ==> (#[trigger] rounds[i]).message == buffered_events(
                buffered,
            ).0[i],
    ensures
        ({
            let begun = DriverView {
                monitor: at_start(panes, start.started),
                pending: PendingView::Nothing,
            };
            let watched = after_watching_each(begun, launch.unwatched, starting);
            after_launch(launch, start, starting, rounds) == (
                DriverView {
                    monitor: after_rounds(watched.monitor, rounds),
                    pending: PendingView::Nothing,
                },
                buffered_events(buffered).1,
            )
        }),
{
    let outcome = outcome_of(TaskView::Poll, start, starting);
    reveal_with_fuel(after_tasks, 4);
    law_tasks_make_the_start(panes, outcome);
    let driver = after_tasks(launch.driver, TaskView::Poll, outcome, 3);
    lemma_launch_watches(
        LaunchView { driver, task: None, ..launch },
        start,
        starting,
        rounds,
    );
}

/// When the launch is over the machine is awake exactly if some pane is working, as long as every
/// attempt to start `caffeinate` succeeds.
pub proof fn law_launch_wakes_exactly(
    panes: Seq<PaneView>,
    buffered: Seq<Seq<char>>,
    launch: LaunchView,
    start: Round,
    starting: Set<Seq<char>>,
    rounds: Seq<Round>,
)
    requires
        launches(launch, driver_of(panes), TaskView::Poll, buffered),
        rounds.len() == launch.messages.len(),
        forall|i: int|
            0 <= i < rounds.len() ==> (#[trigger] rounds[i]).message == buffered_events(
                buffered,
            ).0[i] && rounds[i].started,
        start.started,
    ensures
        ({
            let after = after_launch(launch, start, starting, rounds).0.monitor;
            after.caffeinated == after.working()
        }),
{
    law_launch_keeps_its_order(panes, buffered, launch, start, starting, rounds);
    let begun = DriverView {
        monitor: at_start(panes, start.started),
        pending: PendingView::Nothing,
    };
    law_watching_subscribes(begun, launch.unwatched, starting);
    law_rounds_keep_awake_exactly(
        after_watching_each(begun, launch.unwatched, starting).monitor,
        rounds,
    );
}

/// The snapshot alone starts `caffeinate` exactly if one of its panes is working.
pub proof fn law_snapshot_wakes(panes: Seq<PaneView>)
    ensures
        ({
            let state = MonitorView {
                statuses: statuses_of(panes),
                subscriptions: Set::empty(),
                caffeinated: false,
            };
            state.reconciled(false).1 == CaffeinateAction::Start <==> any_working(
                statuses_of(panes),
            )
        }),
{
}

/// The machine is never kept awake while no pane is working, whatever messages come and whether
/// or not `caffeinate` can be started.
pub proof fn law_never_awake_without_work(
    panes: Seq<PaneView>,
    started: bool,
    rounds: Seq<Round>,
)
    ensures
        after_rounds(at_start(panes, started), rounds).caffeinated ==> after_rounds(
            at_start(panes, started),
            rounds,
        ).working(),
    decreases rounds.len(),
{
    if rounds.len() > 0 {
        law_never_awake_without_work(panes, started, rounds.drop_last());
    }
}

/// Where the machine is awake exactly if some pane is working, and the process has not exited,
/// `caffeinate` is started exactly when the first pane begins to work and stopped exactly when
/// the last one ceases to.
pub proof fn law_acts_on_transitions(before: MonitorView, message: MessageView)
    requires
        before.caffeinated == before.working(),
    ensures
        before.after_message(message) matches Ok((next, _)) ==> {
            &&& next.reconciled(false).1 == CaffeinateAction::Start <==> !before.working()
                && next.working()
            &&& next.reconciled(false).1 == CaffeinateAction::Stop <==> before.working()
                && !next.working()
        },
{
}

/// `caffeinate` is started once: after a start that succeeded, and as long as the process runs,
/// reconciling again with the same statuses asks for nothing.
pub proof fn law_reconciling_settles(state: MonitorView, exited: bool)
    ensures
        ({
            let settled = after_reconciling(state, exited, true);
            settled.reconciled(false) == (settled, CaffeinateAction::Keep)
        }),
{
}

/// A pane that is working keeps the machine awake when another pane reports a status or closes.
pub proof fn law_one_working_pane_is_enough(
    before: MonitorView,
    working: Seq<char>,
    other: PaneView,
)
    requires
        before.caffeinated,
        before.statuses.contains_key(working),
        before.statuses[working] == AgentStatus::Working,
        other.pane_id != working,
    ensures
        before.after_message(MessageView::Status(other)) matches Ok((next, _))
            && next.reconciled(false).1 == CaffeinateAction::Keep,
        before.after_event(EventView::PaneClosed(other.pane_id)).0.reconciled(false).1
            == CaffeinateAction::Keep,
{
    let reported = with_report(before.statuses, other);
    assert(reported.contains_key(working) && reported[working] == AgentStatus::Working);
    let closed = before.statuses.remove(other.pane_id);
    assert(closed.contains_key(working) && closed[working] == AgentStatus::Working);
}

/// `caffeinate` is stopped when the only working pane closes, or reports that it no longer works.
pub proof fn law_last_working_pane_stops(before: MonitorView, last: Seq<char>, status: AgentStatus)
    requires
        before.caffeinated,
        forall|pane_id: Seq<char>| #[trigger]
            before.statuses.contains_key(pane_id) && before.statuses[pane_id]
                == AgentStatus::Working ==> pane_id == last,
        status != AgentStatus::Working,
        before.statuses.contains_key(last),
    ensures
        before.after_event(EventView::PaneClosed(last)).0.reconciled(false).1
            == CaffeinateAction::Stop,
        before.after_message(
            MessageView::Status(PaneView { pane_id: last, agent_status: status }),
        ) matches Ok((next, _)) && next.reconciled(false).1 == CaffeinateAction::Stop,
{
    let closed = before.statuses.remove(last);
    assert forall|pane_id: Seq<char>| #[trigger] closed.contains_key(pane_id) implies closed[pane_id]
        != AgentStatus::Working by {
        assert(before.statuses.contains_key(pane_id));
    }
    let reported = with_report(
        before.statuses,
        PaneView { pane_id: last, agent_status: status },
    );
    assert forall|pane_id: Seq<char>| #[trigger]
        reported.contains_key(pane_id) implies reported[pane_id] != AgentStatus::Working by {
        assert(before.statuses.contains_key(pane_id));
    }
}

/// A status report on a pane that has been closed changes nothing.
pub proof fn law_closed_pane_is_ignored(before: MonitorView, report: PaneView)
    ensures
        ({
            let closed = before.after_event(EventView::PaneClosed(report.pane_id)).0;
            closed.after_message(MessageView::Status(report)) matches Ok((next, _)) && next
                == closed
        }),
{
}

/// A pane is subscribed to once: while its subscription lasts, its creation does not ask for
/// another.
pub proof fn law_subscribed_once(state: MonitorView, created: PaneView, again: PaneView)
    requires
        again.pane_id == created.pane_id,
    ensures
        ({
            let subscribed = state.after_event(EventView::PaneCreated(created)).0.after_subscribing(
                created.pane_id,
                true,
            );
            subscribed.after_event(EventView::PaneCreated(again)).1 == (
            ReactionView::PaneCreated { pane: again, subscribe: false })
        }),
{
}

/// Only known panes are subscribed to, whatever messages come.
pub proof fn law_subscriptions_are_of_known_panes(state: MonitorView, rounds: Seq<Round>)
    requires
        state.subscriptions.subset_of(state.statuses.dom()),
    ensures
        after_rounds(state, rounds).subscriptions.subset_of(
            after_rounds(state, rounds).statuses.dom(),
        ),
    decreases rounds.len(),
{
    if rounds.len() > 0 {
        law_subscriptions_are_of_known_panes(state, rounds.drop_last());
        let before = after_rounds(state, rounds.drop_last());
        let after = after_rounds(state, rounds);
        assert forall|pane_id: Seq<char>| after.subscriptions.contains(pane_id) implies after.statuses
            .dom().contains(pane_id) by {
            assert(before.subscriptions.contains(pane_id) ==> before.statuses.dom().contains(
                pane_id,
            ));
        }
    }
}

/// When a status socket closes, the statuses and the other subscriptions stay as they are.
pub proof fn law_other_subscriptions_stay(before: MonitorView, closed: Seq<char>, other: Seq<char>)
    requires
        other != closed,
    ensures
        before.after_message(MessageView::SocketClosed(Some(closed))) matches Ok((next, _)) && {
            &&& next.statuses == before.statuses
            &&& next.caffeinated == before.caffeinated
            &&& !next.subscriptions.contains(closed)
            &&& next.subscriptions.contains(other) == before.subscriptions.contains(other)
        },
{
}

/// A response, which has an id, is never taken for an event.
pub proof fn law_responses_are_not_events(message: JsonView)
    requires
        message.get("id"@) is Some,
    ensures
        lifecycle_message_of(message) is None,
        status_message_of(message) == Ok::<_, DecodeErrorView>(None::<MessageView>),
{
}

/// An event, which has no id, is never taken for a reply: it neither acknowledges nor fails a
/// request, and it is not the snapshot.
pub proof fn law_events_are_not_replies(message: JsonView, request_id: Seq<char>)
    requires
        message.get("id"@) is None,
    ensures
        !acknowledges(message, request_id),
        !refuses(message, request_id),
        reply_of(message, request_id) == ReplyView::Unrelated,
        snapshot_reply(message) == SnapshotView::Unrelated,
{
}

/// Every request has an id of its own: the ids of two panes' subscriptions differ, and neither
/// the lifecycle subscription nor the snapshot shares one with them.
pub proof fn law_request_ids_differ(one: Seq<char>, other: Seq<char>)
    ensures
        status_request_id(one) == status_request_id(other) ==> one == other,
        status_request_id(one) != global_request_id(),
        status_request_id(one) != snapshot_request_id(),
        global_request_id() != snapshot_request_id(),
{
    reveal_strlit("status-subscription-");
    reveal_strlit("global-subscription");
    reveal_strlit("session-snapshot");
    let prefix = "status-subscription-"@;
    if status_request_id(one) == status_request_id(other) {
        assert(one =~= status_request_id(one).skip(prefix.len() as int));
        assert(other =~= status_request_id(other).skip(prefix.len() as int));
    }
    assert(status_request_id(one)[1] == 't');
    assert(global_request_id()[1] == 'l');
    assert(snapshot_request_id()[1] == 'e');
}

/// A reply settles one request only: what acknowledges or fails the subscription of one pane is
/// about something else to every other request.
pub proof fn law_reply_settles_one_request(message: JsonView, one: Seq<char>, other: Seq<char>)
    requires
        one != other,
        reply_of(message, one) != ReplyView::Unrelated,
    ensures
        reply_of(message, other) == ReplyView::Unrelated,
{
}

/// Where a handshake stands after several lines.
pub open spec fn after_lines(request_id: Seq<char>, lines: Seq<Seq<char>>) -> HandshakeView
    decreases lines.len(),
{
    if lines.len() == 0 {
        HandshakeView::Waiting(Seq::empty())
    } else {
        match after_lines(request_id, lines.drop_last()) {
            HandshakeView::Waiting(buffered) => handshake_next(
                request_id,
                buffered,
                Some(lines.last()),
            ),
            ended => ended,
        }
    }
}

/// `line` is JSON, and about something else than the request.
pub open spec fn is_unrelated_line(request_id: Seq<char>, line: Seq<char>) -> bool {
    parsed_json(line) matches Ok(message) && reply_of(message, request_id)
        == ReplyView::Unrelated
}

/// No line is lost while a subscription waits: as long as nothing is said about it, the lines that
/// came are exactly those that are kept, in the order of their arrival.
pub proof fn law_waiting_keeps_every_line(request_id: Seq<char>, lines: Seq<Seq<char>>)
    requires
        forall|i: int| 0 <= i < lines.len() ==> is_unrelated_line(request_id, #[trigger] lines[i]),
    ensures
        after_lines(request_id, lines) == HandshakeView::Waiting(lines),
    decreases lines.len(),
{
    if lines.len() > 0 {
        let front = lines.drop_last();
        assert forall|i: int| 0 <= i < front.len() implies is_unrelated_line(
            request_id,
            #[trigger] front[i],
        ) by {
            assert(front[i] == lines[i]);
        }
        law_waiting_keeps_every_line(request_id, front);
        assert(is_unrelated_line(request_id, lines[lines.len() - 1]));
        assert(front.push(lines.last()) =~= lines);
    } else {
        assert(lines =~= Seq::empty());
    }
}

/// Whatever lines come, those that are kept while a subscription waits are all that came.
pub proof fn law_no_line_is_lost(request_id: Seq<char>, lines: Seq<Seq<char>>)
    ensures
        after_lines(request_id, lines) matches HandshakeView::Waiting(buffered) ==> buffered
            == lines,
    decreases lines.len(),
{
    if lines.len() > 0 {
        law_no_line_is_lost(request_id, lines.drop_last());
        assert(lines.drop_last().push(lines.last()) =~= lines);
    } else {
        assert(lines =~= Seq::empty());
    }
}

/// The snapshot is asked for when the lifecycle subscription has been acknowledged, and not
/// before; the lines that came until then are all kept for the main loop.
pub proof fn law_snapshot_follows_acknowledgement(
    request_id: Seq<char>,
    lines: Seq<Seq<char>>,
    line: Option<Seq<char>>,
)
    ensures
        after_lines(request_id, lines) matches HandshakeView::Waiting(buffered) ==> {
            let step = (StartupView::Subscribing { request_id, buffered }).next(line);
            &&& step is RequestSnapshot <==> (line matches Some(line) && parsed_json(
                line,
            ) matches Ok(message) && reply_of(message, request_id) == ReplyView::Acknowledged)
            &&& step matches StartupStepView::RequestSnapshot(next) ==> next == (
            StartupView::Requesting { buffered: lines })
        },
{
    law_no_line_is_lost(request_id, lines);
}

/// The lines that came before the acknowledgement reach the main loop, whatever else the
/// snapshot socket brings first.
pub proof fn law_kept_lines_reach_the_main_loop(
    buffered: Seq<Seq<char>>,
    line: Option<Seq<char>>,
)
    ensures
        match (StartupView::Requesting { buffered }).next(line) {
            StartupStepView::Run { buffered: kept, .. } => kept == buffered,
            StartupStepView::ReadSnapshot(next) => next == (StartupView::Requesting { buffered }),
            step => step is SnapshotFailed,
        },
{
}

/// When a subscription is acknowledged, the lines kept are exactly those that came before the
/// acknowledgement, in the order of their arrival.
pub proof fn law_acknowledged_keeps_every_line(
    request_id: Seq<char>,
    lines: Seq<Seq<char>>,
    acknowledgement: Seq<char>,
)
    requires
        forall|i: int| 0 <= i < lines.len() ==> is_unrelated_line(request_id, #[trigger] lines[i]),
        parsed_json(acknowledgement) matches Ok(message) && reply_of(message, request_id)
            == ReplyView::Acknowledged,
    ensures
        after_lines(request_id, lines.push(acknowledgement)) == HandshakeView::Acknowledged(lines),
{
    law_waiting_keeps_every_line(request_id, lines);
    assert(lines.push(acknowledgement).drop_last() =~= lines);
}

/// The lifecycle reader hands on lifecycle events and nothing else, until it reports that its
/// socket closed.
pub proof fn law_lifecycle_reader_output(event: ReaderEventView)
    ensures
        match lifecycle_step(event) {
            ReaderStepView::Forward(message) => message is Lifecycle,
            ReaderStepView::Finish(message) => message == MessageView::SocketClosed(None)
                && !(event is Line),
            _ => event is Line,
        },
{
}

/// The reader of a pane's status socket hands on status reports and nothing else, until it
/// reports that the pane's socket closed.
pub proof fn law_status_reader_output(pane_id: Seq<char>, event: ReaderEventView)
    ensures
        match status_step(pane_id, event) {
            ReaderStepView::Forward(message) => message is Status,
            ReaderStepView::Finish(message) => message == MessageView::SocketClosed(Some(pane_id))
                && !(event is Line),
            _ => event is Line,
        },
{
}

/// The readers tell of every response, and of nothing else, its request's id and its result's
/// type.
pub proof fn law_readers_tell_of_responses(pane_id: Seq<char>, line: Seq<char>)
    ensures
        match response_line(line) {
            Some(response) => {
                &&& lifecycle_step(ReaderEventView::Line(line)) == ReaderStepView::Response(
                    response,
                )
                &&& status_step(pane_id, ReaderEventView::Line(line)) == ReaderStepView::Response(
                    response,
                )
            },
            None => {
                &&& !(lifecycle_step(ReaderEventView::Line(line)) is Response)
                &&& !(status_step(pane_id, ReaderEventView::Line(line)) is Response)
            },
        },
        response_line(line) is Some <==> (parsed_json(line) matches Ok(message) && message.get(
            "id"@,
        ) is Some),
{
}

/// The messages of the lines that hold one, in the order of the lines. A line that cannot be read
/// holds none.
pub open spec fn messages_in(
    reads: Seq<Result<Option<MessageView>, MessageErrorView>>,
) -> Seq<MessageView>
    decreases reads.len(),
{
    if reads.len() == 0 {
        Seq::empty()
    } else {
        match reads.first() {
            Ok(Some(message)) => seq![message] + messages_in(reads.drop_first()),
            _ => messages_in(reads.drop_first()),
        }
    }
}

/// What a reader that takes the steps `step` hands on, until it stops.
pub open spec fn reader_output(
    step: spec_fn(ReaderEventView) -> ReaderStepView,
    events: Seq<ReaderEventView>,
) -> Seq<MessageView>
    decreases events.len(),
{
    if events.len() == 0 {
        Seq::empty()
    } else {
        match step(events.first()) {
            ReaderStepView::Forward(message) => seq![message] + reader_output(
                step,
                events.drop_first(),
            ),
            ReaderStepView::Finish(message) => seq![message],
            _ => reader_output(step, events.drop_first()),
        }
    }
}

/// What happens on a socket that brings `lines`.
pub open spec fn line_events(lines: Seq<Seq<char>>) -> Seq<ReaderEventView> {
    lines.map_values(|line: Seq<char>| ReaderEventView::Line(line))
}

/// A reader that hands on what the lines hold, until its socket ends, hands on just that.
proof fn lemma_reader_output(
    step: spec_fn(ReaderEventView) -> ReaderStepView,
    read: spec_fn(Seq<char>) -> Result<Option<MessageView>, MessageErrorView>,
    lines: Seq<Seq<char>>,
    end: ReaderEventView,
    rest: Seq<ReaderEventView>,
    closing: MessageView,
)
    requires
        forall|line: Seq<char>|
            match #[trigger] step(ReaderEventView::Line(line)) {
                ReaderStepView::Response(_) => read(line) == Ok::<_, MessageErrorView>(
                    None::<MessageView>,
                ),
                taken => taken == step_for_line(read(line)),
            },
        step(end) == ReaderStepView::Finish(closing),
    ensures
        reader_output(step, line_events(lines)) == messages_in(lines.map_values(read)),
        reader_output(step, line_events(lines).push(end) + rest) == messages_in(
            lines.map_values(read),
        ).push(closing),
    decreases lines.len(),
{
    let whole = line_events(lines).push(end) + rest;
    if lines.len() == 0 {
        assert(whole.first() == end);
        assert(messages_in(lines.map_values(read)).push(closing) =~= seq![closing]);
    } else {
        let later = lines.drop_first();
        lemma_reader_output(step, read, later, end, rest, closing);
        assert(line_events(lines).drop_first() =~= line_events(later));
        assert(whole.drop_first() =~= line_events(later).push(end) + rest);
        assert(whole.first() == ReaderEventView::Line(lines.first()));
        assert(line_events(lines).first() == ReaderEventView::Line(lines.first()));
        let reads = lines.map_values(read);
        assert(reads.drop_first() =~= later.map_values(read));
        assert(reads.first() == read(lines.first()));
        if let Ok(Some(message)) = read(lines.first()) {
            assert((seq![message] + messages_in(later.map_values(read))).push(closing) =~= seq![
                message,
            ] + messages_in(later.map_values(read)).push(closing));
        }
    }
}

/// Where no line tells of a closed socket, no message that the lines hold does.
proof fn lemma_messages_in(reads: Seq<Result<Option<MessageView>, MessageErrorView>>)
    requires
        forall|i: int|
            0 <= i < reads.len() ==> ((#[trigger] reads[i]) matches Ok(Some(message)) ==> !(
            message is SocketClosed)),
    ensures
        forall|i: int|
            0 <= i < messages_in(reads).len() ==> !((#[trigger] messages_in(
                reads,
            )[i]) is SocketClosed),
    decreases reads.len(),
{
    if reads.len() > 0 {
        let later = reads.drop_first();
        assert forall|i: int| 0 <= i < later.len() implies ((#[trigger] later[i]) matches Ok(
            Some(message),
        ) ==> !(message is SocketClosed)) by {
            assert(later[i] == reads[i + 1]);
        }
        lemma_messages_in(later);
        assert(reads[0] == reads.first());
    }
}

/// Over any lines, the lifecycle reader hands on exactly the messages that they hold, in order;
/// when the socket ends it hands on that it closed, once and last, whatever might follow.
pub proof fn law_lifecycle_reader_over_lines(
    lines: Seq<Seq<char>>,
    end: ReaderEventView,
    rest: Seq<ReaderEventView>,
)
    requires
        !(end is Line),
    ensures
        ({
            let step = |event: ReaderEventView| lifecycle_step(event);
            let held = messages_in(lines.map_values(|line: Seq<char>| lifecycle_line(line)));
            &&& reader_output(step, line_events(lines)) == held
            &&& reader_output(step, line_events(lines).push(end) + rest) == held.push(
                MessageView::SocketClosed(None),
            )
            &&& forall|i: int|
                0 <= i < held.len() ==> !((#[trigger] held[i]) is SocketClosed)
        }),
{
    let step = |event: ReaderEventView| lifecycle_step(event);
    let read = |line: Seq<char>| lifecycle_line(line);
    lemma_reader_output(step, read, lines, end, rest, MessageView::SocketClosed(None));
    lemma_messages_in(lines.map_values(read));
}

/// Over any lines, the reader of a pane's status socket hands on exactly the messages that they
/// hold, in order; when the socket ends it hands on that it closed, once and last, whatever might
/// follow.
pub proof fn law_status_reader_over_lines(
    pane_id: Seq<char>,
    lines: Seq<Seq<char>>,
    end: ReaderEventView,
    rest: Seq<ReaderEventView>,
)
    requires
        !(end is Line),
    ensures
        ({
            let step = |event: ReaderEventView| status_step(pane_id, event);
            let held = messages_in(lines.map_values(|line: Seq<char>| status_line(line)));
            &&& reader_output(step, line_events(lines)) == held
            &&& reader_output(step, line_events(lines).push(end) + rest) == held.push(
                MessageView::SocketClosed(Some(pane_id)),
            )
            &&& forall|i: int|
                0 <= i < held.len() ==> !((#[trigger] held[i]) is SocketClosed)
        }),
{
    let step = |event: ReaderEventView| status_step(pane_id, event);
    let read = |line: Seq<char>| status_line(line);
    lemma_reader_output(step, read, lines, end, rest, MessageView::SocketClosed(Some(pane_id)));
    lemma_messages_in(lines.map_values(read));
}

/// What comes of the request for the snapshot when the socket brings `lines` and then closes.
pub open spec fn snapshot_over(lines: Seq<Seq<char>>) -> SnapshotView
    decreases lines.len(),
{
    if lines.len() == 0 {
        snapshot_next(None)
    } else {
        match snapshot_next(Some(lines.first())) {
            SnapshotView::Unrelated => snapshot_over(lines.drop_first()),
            settled => settled,
        }
    }
}

/// `line` is JSON, and does not answer the request for the snapshot.
pub open spec fn is_other_response(line: Seq<char>) -> bool {
    parsed_json(line) matches Ok(message) && message.text_at("id"@) != Some(snapshot_request_id())
}

/// The first line that answers the request for the snapshot settles it, whatever follows; it
/// fails if a line that is not JSON comes first, or if the socket closes first.
pub proof fn law_first_response_settles_the_snapshot(lines: Seq<Seq<char>>, first: int)
    requires
        0 <= first <= lines.len(),
        forall|i: int| 0 <= i < first ==> is_other_response(#[trigger] lines[i]),
        first < lines.len() ==> !is_other_response(lines[first]),
    ensures
        snapshot_over(lines) == (if first == lines.len() {
            SnapshotView::Closed
        } else {
            match parsed_json(lines[first]) {
                Ok(message) => snapshot_reply(message),
                Err(reason) => SnapshotView::Malformed(reason),
            }
        }),
    decreases lines.len(),
{
    if first > 0 {
        let later = lines.drop_first();
        assert(is_other_response(lines[0]));
        assert forall|i: int| 0 <= i < first - 1 implies is_other_response(#[trigger] later[i]) by {
            assert(later[i] == lines[i + 1]);
        }
        if first < lines.len() {
            assert(later[first - 1] == lines[first]);
        }
        law_first_response_settles_the_snapshot(later, first - 1);
    }
}

/// What comes of a start that waits for the snapshot when the socket brings `lines` and then
/// closes.
pub open spec fn startup_over(state: StartupView, lines: Seq<Seq<char>>) -> StartupStepView
    decreases lines.len(),
{
    if lines.len() == 0 {
        state.next(None)
    } else {
        match state.next(Some(lines.first())) {
            StartupStepView::ReadSnapshot(next) => startup_over(next, lines.drop_first()),
            settled => settled,
        }
    }
}

/// A start that waits for the snapshot enters the main loop with the panes of the snapshot and
/// the lines kept, or fails as the request for the snapshot does.
pub proof fn law_snapshot_decides_the_start(buffered: Seq<Seq<char>>, lines: Seq<Seq<char>>)
    ensures
        startup_over(StartupView::Requesting { buffered }, lines) == (match snapshot_over(lines) {
            SnapshotView::Snapshot(panes) => StartupStepView::Run {
                driver: driver_of(panes),
                buffered,
            },
            failed => StartupStepView::SnapshotFailed(failed),
        }),
    decreases lines.len(),
{
    if lines.len() > 0 {
        law_snapshot_decides_the_start(buffered, lines.drop_first());
    }
}

/// A value that meets the condition under which it is read back from its text at one depth meets
/// it at every greater one.
pub proof fn law_shallow_values_are_plain(json: JsonView, depth: nat, limit: nat)
    requires
        plain_within(json, depth),
        depth <= limit,
    ensures
        plain_within(json, limit),
    decreases depth,
{
    match json {
        JsonView::Array(items) => {
            assert forall|i: int| 0 <= i < items.len() implies plain_within(
                #[trigger] items[i],
                (limit - 1) as nat,
            ) by {
                law_shallow_values_are_plain(items[i], (depth - 1) as nat, (limit - 1) as nat);
            }
        },
        JsonView::Object(map) => {
            assert forall|key: Seq<char>| #[trigger] map.contains_key(key) implies plain_within(
                map[key],
                (limit - 1) as nat,
            ) by {
                law_shallow_values_are_plain(map[key], (depth - 1) as nat, (limit - 1) as nat);
            }
        },
        _ => {},
    }
}

/// Every status is read back from its name.
pub proof fn law_status_names_read_back(status: AgentStatus)
    ensures
        status_named(status_name(status)) == Ok::<_, DecodeErrorView>(status),
{
    reveal_strlit("idle");
    reveal_strlit("working");
    reveal_strlit("blocked");
    reveal_strlit("done");
    reveal_strlit("unknown");
    assert("idle"@[0] == 'i');
    assert("working"@[0] == 'w');
    assert("blocked"@[0] == 'b');
    assert("done"@[0] == 'd');
    assert("unknown"@[0] == 'u');
}

/// `json` is an object that holds `value` under `key`.
pub open spec fn holds(json: JsonView, key: Seq<char>, value: JsonView) -> bool {
    json is Object && json.get(key) == Some(value)
}

/// `json` is an object that describes `pane`, whatever other fields it has.
pub open spec fn describes_pane(json: JsonView, pane: PaneView) -> bool {
    &&& holds(json, "pane_id"@, JsonView::Text(pane.pane_id))
    &&& holds(json, "agent_status"@, JsonView::Text(status_name(pane.agent_status)))
}

/// A pane is read back from every object that describes it; unknown fields are ignored.
pub proof fn law_pane_read_back(json: JsonView, pane: PaneView, form: PaneForm)
    requires
        describes_pane(json, pane),
    ensures
        decoded_pane(json, form) == Ok::<_, DecodeErrorView>(pane),
{
    law_status_names_read_back(pane.agent_status);
}

/// The creation of a pane is read back from every message that describes it.
pub proof fn law_creation_read_back(message: JsonView, data: JsonView, json: JsonView, pane: PaneView)
    requires
        holds(message, "data"@, data),
        holds(data, "type"@, JsonView::Text("pane_created"@)),
        holds(data, "pane"@, json),
        describes_pane(json, pane),
    ensures
        decoded_event(message) == Ok::<_, DecodeErrorView>(EventView::PaneCreated(pane)),
{
    law_pane_read_back(json, pane, PaneForm::Created);
}

/// The closing of a pane is read back from every message that describes it.
pub proof fn law_closing_read_back(message: JsonView, data: JsonView, pane_id: Seq<char>)
    requires
        holds(message, "data"@, data),
        holds(data, "type"@, JsonView::Text("pane_closed"@)),
        holds(data, "pane_id"@, JsonView::Text(pane_id)),
    ensures
        decoded_event(message) == Ok::<_, DecodeErrorView>(EventView::PaneClosed(pane_id)),
{
    reveal_strlit("pane_created");
    reveal_strlit("pane_closed");
    assert("pane_created"@.len() != "pane_closed"@.len());
}

/// A lifecycle event of another kind is read, and ignored.
pub proof fn law_other_event_is_ignored(
    state: MonitorView,
    message: JsonView,
    data: JsonView,
    tag: Seq<char>,
)
    requires
        holds(message, "data"@, data),
        holds(data, "type"@, JsonView::Text(tag)),
        !names_lifecycle_event(tag),
    ensures
        state.after_message(MessageView::Lifecycle(message)) matches Ok((next, _)) && next == state,
{
}

/// A status report is read back from every message that describes it.
pub proof fn law_report_read_back(message: JsonView, data: JsonView, pane: PaneView)
    requires
        holds(message, "data"@, data),
        describes_pane(data, pane),
    ensures
        decoded_status_event(message) == Ok::<_, DecodeErrorView>(pane),
{
    law_pane_read_back(data, pane, PaneForm::Reported);
}

/// The panes of a list are read back from objects that describe them.
proof fn lemma_panes_read_back(items: Seq<JsonView>, panes: Seq<PaneView>)
    requires
        items.len() == panes.len(),
        forall|i: int| 0 <= i < items.len() ==> describes_pane(#[trigger] items[i], panes[i]),
    ensures
        decoded_panes(items) == Ok::<_, DecodeErrorView>(panes),
    decreases items.len(),
{
    if items.len() > 0 {
        let front = items.drop_last();
        assert forall|i: int| 0 <= i < front.len() implies describes_pane(
            #[trigger] front[i],
            panes.drop_last()[i],
        ) by {
            assert(front[i] == items[i]);
        }
        lemma_panes_read_back(front, panes.drop_last());
        assert(describes_pane(items[items.len() - 1], panes[panes.len() - 1]));
        law_pane_read_back(items.last(), panes.last(), PaneForm::Listed);
        assert(panes.drop_last().push(panes.last()) =~= panes);
    } else {
        assert(panes =~= Seq::empty());
    }
}

/// The panes of a session are read back, in order, from every response that describes them.
pub proof fn law_snapshot_read_back(
    message: JsonView,
    result: JsonView,
    snapshot: JsonView,
    items: Seq<JsonView>,
    panes: Seq<PaneView>,
)
    requires
        holds(message, "id"@, JsonView::Text(snapshot_request_id())),
        message.get("error"@) is None,
        holds(message, "result"@, result),
        holds(result, "snapshot"@, snapshot),
        holds(snapshot, "panes"@, JsonView::Array(items)),
        items.len() == panes.len(),
        forall|i: int| 0 <= i < items.len() ==> describes_pane(#[trigger] items[i], panes[i]),
    ensures
        decoded_snapshot_result(result) == Ok::<_, DecodeErrorView>(panes),
        snapshot_reply(message) == SnapshotView::Snapshot(panes),
{
    lemma_panes_read_back(items, panes);
}

/// A line of a status socket that describes a report is read as that report.
pub proof fn law_status_line_read_back(
    line: Seq<char>,
    message: JsonView,
    data: JsonView,
    pane: PaneView,
)
    requires
        reads_as(line, message),
        message.get("id"@) is None,
        holds(message, "event"@, JsonView::Text("pane.agent_status_changed"@)),
        holds(message, "data"@, data),
        describes_pane(data, pane),
    ensures
        status_line(line) == Ok::<_, MessageErrorView>(Some(MessageView::Status(pane))),
{
    law_report_read_back(message, data, pane);
}

/// A line of the lifecycle socket that names a lifecycle event is read as that event.
pub proof fn law_lifecycle_line_read_back(line: Seq<char>, message: JsonView, event: Seq<char>)
    requires
        reads_as(line, message),
        message.get("id"@) is None,
        holds(message, "event"@, JsonView::Text(event)),
        names_lifecycle_event(event),
    ensures
        lifecycle_line(line) == Ok::<_, MessageErrorView>(Some(MessageView::Lifecycle(message))),
{
}

/// A report that a known pane is working starts `caffeinate` if it does not run.
pub proof fn law_working_report_wakes(before: MonitorView, pane_id: Seq<char>)
    requires
        before.statuses.contains_key(pane_id),
        !before.caffeinated,
    ensures
        ({
            let report = PaneView { pane_id, agent_status: AgentStatus::Working };
            before.after_message(MessageView::Status(report)) matches Ok((next, _))
                && next.reconciled(false).1 == CaffeinateAction::Start
        }),
{
    let report = PaneView { pane_id, agent_status: AgentStatus::Working };
    assert(with_report(before.statuses, report).contains_key(pane_id));
}

/// A pane that is created working starts `caffeinate` if it does not run.
pub proof fn law_working_creation_wakes(before: MonitorView, pane_id: Seq<char>)
    requires
        !before.caffeinated,
    ensures
        ({
            let pane = PaneView { pane_id, agent_status: AgentStatus::Working };
            before.after_event(EventView::PaneCreated(pane)).0.reconciled(false).1
                == CaffeinateAction::Start
        }),
{
    assert(before.statuses.insert(pane_id, AgentStatus::Working).contains_key(pane_id));
}

/// A process that has exited while some pane is working is replaced.
pub proof fn law_exited_process_is_replaced(state: MonitorView)
    requires
        state.working(),
    ensures
        state.reconciled(true).1 == CaffeinateAction::Start,
{
}

/// A subscription that is refused ends with the reason given, after any lines about something
/// else, even if the same message acknowledges it.
pub proof fn law_refusal_ends_the_handshake(
    request_id: Seq<char>,
    lines: Seq<Seq<char>>,
    refusal: Seq<char>,
    message: JsonView,
)
    requires
        forall|i: int| 0 <= i < lines.len() ==> is_unrelated_line(request_id, #[trigger] lines[i]),
        reads_as(refusal, message),
        refuses(message, request_id),
    ensures
        message.get("error"@) matches Some(reason) && after_lines(request_id, lines.push(refusal))
            == HandshakeView::Refused(reason),
{
    law_waiting_keeps_every_line(request_id, lines);
    assert(lines.push(refusal).drop_last() =~= lines);
}

} // verus!
