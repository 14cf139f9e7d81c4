//! What each message, and each answer, does to what is known.
use crate::decode::{decoded_event, DecodeErrorView};
use crate::driver::{driver_of, Answer, DriverView, PendingView, TaskView};
use crate::entries::{lemma_entries_map_contains, lemma_entries_map_get};
use crate::json::JsonView;
use crate::laws::{after_round, after_rounds, Round};
use crate::model::{AgentStatus, EventView, MessageView, PaneView};
use crate::monitor::{CaffeinateAction, MonitorView, ReactionView};
use crate::statuses::{any_working, statuses_of, with_message, with_report};
use vstd::prelude::*;

verus! {

/// `after` differs from `before` at `pane_id` alone.
pub open spec fn same_but_for(
    before: Map<Seq<char>, AgentStatus>,
    after: Map<Seq<char>, AgentStatus>,
    pane_id: Seq<char>,
) -> bool {
    forall|other: Seq<char>|
        other != pane_id ==> {
            &&& #[trigger] after.contains_key(other) <==> before.contains_key(other)
            &&& before.contains_key(other) ==> after[other] == before[other]
        }
}

/// After a report on a pane that is known its status is the one reported, whatever the other panes
/// do; a pane that is not known stays unknown; every other pane keeps its status.
pub proof fn law_report_replaces_the_status(
    before: Map<Seq<char>, AgentStatus>,
    report: PaneView,
)
    ensures
        ({
            let after = with_report(before, report);
            &&& after.contains_key(report.pane_id) <==> before.contains_key(report.pane_id)
            &&& before.contains_key(report.pane_id) ==> after[report.pane_id]
                == report.agent_status
            &&& same_but_for(before, after, report.pane_id)
        }),
        with_message(before, MessageView::Status(report)) == with_report(before, report),
{
}

/// Only a status report is applied to the statuses.
pub proof fn law_only_reports_are_applied(
    before: Map<Seq<char>, AgentStatus>,
    message: MessageView,
)
    requires
        !(message is Status),
    ensures
        with_message(before, message) == before,
{
}

/// The later of two reports on a pane counts, and reports on different panes do not disturb each
/// other.
pub proof fn law_reports_follow_each_other(
    before: Map<Seq<char>, AgentStatus>,
    first: PaneView,
    second: PaneView,
)
    ensures
        first.pane_id == second.pane_id ==> with_report(with_report(before, first), second)
            == with_report(before, second),
        first.pane_id != second.pane_id ==> with_report(with_report(before, first), second)
            == with_report(with_report(before, second), first),
{
    assert(first.pane_id == second.pane_id ==> with_report(with_report(before, first), second)
        =~= with_report(before, second));
    assert(first.pane_id != second.pane_id ==> with_report(with_report(before, first), second)
        =~= with_report(with_report(before, second), first));
}

/// `panes` does not list the pane at `at` again later.
pub open spec fn listed_last(panes: Seq<PaneView>, at: int) -> bool {
    forall|later: int|
        at < later < panes.len() ==> (#[trigger] panes[later]).pane_id != panes[at].pane_id
}

/// The statuses of a list of panes are those that it lists, each pane with the status of its last
/// listing, and no other pane is known; some pane is working exactly if one is listed so last.
pub proof fn law_listed_panes_are_known(panes: Seq<PaneView>)
    ensures
        forall|pane_id: Seq<char>| #[trigger]
            statuses_of(panes).contains_key(pane_id) <==> exists|at: int|
                0 <= at < panes.len() && (#[trigger] panes[at]).pane_id == pane_id,
        forall|at: int|
            0 <= at < panes.len() && listed_last(panes, at) ==> statuses_of(panes)[(
            #[trigger] panes[at]).pane_id] == panes[at].agent_status,
        any_working(statuses_of(panes)) <==> exists|at: int|
            0 <= at < panes.len() && listed_last(panes, at) && (
            #[trigger] panes[at]).agent_status == AgentStatus::Working,
{
    let entries = panes.map_values(|pane: PaneView| (pane.pane_id, pane.agent_status));
    let known = statuses_of(panes);
    assert forall|pane_id: Seq<char>| #[trigger] known.contains_key(pane_id) <==> exists|at: int|
        0 <= at < panes.len() && (#[trigger] panes[at]).pane_id == pane_id by {
        lemma_entries_map_contains(entries, pane_id);
        if known.contains_key(pane_id) {
            let at = choose|at: int| 0 <= at < entries.len() && (#[trigger] entries[at]).0
                == pane_id;
            assert(panes[at].pane_id == pane_id);
        }
        if exists|at: int| 0 <= at < panes.len() && (#[trigger] panes[at]).pane_id == pane_id {
            let at = choose|at: int|
                0 <= at < panes.len() && (#[trigger] panes[at]).pane_id == pane_id;
            assert(entries[at].0 == pane_id);
        }
    }
    assert forall|at: int| 0 <= at < panes.len() && listed_last(panes, at) implies known[(
    #[trigger] panes[at]).pane_id] == panes[at].agent_status && known.contains_key(
        panes[at].pane_id,
    ) by {
        assert forall|later: int| at < later < entries.len() implies (
        #[trigger] entries[later]).0 != entries[at].0 by {
            assert(panes[later].pane_id != panes[at].pane_id);
        }
        lemma_entries_map_get(entries, at);
    }
    if any_working(known) {
        let pane_id = choose|pane_id: Seq<char>| #[trigger]
            known.contains_key(pane_id) && known[pane_id] == AgentStatus::Working;
        let some = choose|at: int|
            0 <= at < panes.len() && (#[trigger] panes[at]).pane_id == pane_id;
        let at = lemma_last_listing(panes, some);
        assert(panes[at].agent_status == AgentStatus::Working);
    }
    if exists|at: int|
        0 <= at < panes.len() && listed_last(panes, at) && (#[trigger] panes[at]).agent_status
            == AgentStatus::Working {
        let at = choose|at: int|
            0 <= at < panes.len() && listed_last(panes, at) && (#[trigger] panes[at]).agent_status
                == AgentStatus::Working;
        assert(known.contains_key(panes[at].pane_id));
    }
}

/// A pane that is listed is listed a last time.
proof fn lemma_last_listing(panes: Seq<PaneView>, some: int) -> (at: int)
    requires
        0 <= some < panes.len(),
    ensures
        some <= at < panes.len(),
        panes[at].pane_id == panes[some].pane_id,
        listed_last(panes, at),
    decreases panes.len() - some,
{
    if listed_last(panes, some) {
        some
    } else {
        let later = choose|later: int|
            some < later < panes.len() && (#[trigger] panes[later]).pane_id
                == panes[some].pane_id;
        lemma_last_listing(panes, later)
    }
}

/// Where a snapshot lists each pane once, every listed pane is known with exactly the status listed
/// with it, and no other pane is; some pane is working exactly if one is listed as working.
pub proof fn law_snapshot_is_taken_over(panes: Seq<PaneView>)
    requires
        forall|i: int, j: int|
            0 <= i < j < panes.len() ==> (#[trigger] panes[i]).pane_id != (
            #[trigger] panes[j]).pane_id,
    ensures
        ({
            let known = driver_of(panes).monitor.statuses;
            &&& forall|at: int|
                0 <= at < panes.len() ==> known.contains_key((#[trigger] panes[at]).pane_id)
                    && known[panes[at].pane_id] == panes[at].agent_status
            &&& forall|pane_id: Seq<char>| #[trigger]
                known.contains_key(pane_id) ==> exists|at: int|
                    0 <= at < panes.len() && (#[trigger] panes[at]).pane_id == pane_id
            &&& driver_of(panes).monitor.working() <==> exists|at: int|
                0 <= at < panes.len() && (#[trigger] panes[at]).agent_status
                    == AgentStatus::Working
        }),
        driver_of(panes).monitor.subscriptions == Set::<Seq<char>>::empty(),
        !driver_of(panes).monitor.caffeinated,
        driver_of(panes).pending is Poll,
{
    law_listed_panes_are_known(panes);
    assert forall|at: int| 0 <= at < panes.len() implies #[trigger] listed_last(panes, at) by {}
    assert forall|at: int| 0 <= at < panes.len() implies statuses_of(panes).contains_key(
        (#[trigger] panes[at]).pane_id,
    ) && statuses_of(panes)[panes[at].pane_id] == panes[at].agent_status by {
        assert(listed_last(panes, at));
    }
    if exists|at: int|
        0 <= at < panes.len() && (#[trigger] panes[at]).agent_status == AgentStatus::Working {
        let at = choose|at: int|
            0 <= at < panes.len() && (#[trigger] panes[at]).agent_status == AgentStatus::Working;
        assert(listed_last(panes, at));
    }
}

/// Working is the one status that counts as working.
pub proof fn law_only_working_counts(statuses: Map<Seq<char>, AgentStatus>)
    ensures
        (forall|pane_id: Seq<char>| #[trigger]
            statuses.contains_key(pane_id) ==> statuses[pane_id] == AgentStatus::Idle
                || statuses[pane_id] == AgentStatus::Blocked || statuses[pane_id]
                == AgentStatus::Done || statuses[pane_id] == AgentStatus::Unknown) <==> !any_working(
            statuses,
        ),
{
    if !any_working(statuses) {
        assert forall|pane_id: Seq<char>| #[trigger]
            statuses.contains_key(pane_id) implies statuses[pane_id] != AgentStatus::Working by {}
    }
}

/// Some pane is working exactly if one that is known has that status.
pub proof fn law_working_means_a_working_pane(state: MonitorView)
    ensures
        state.working() <==> exists|pane_id: Seq<char>| #[trigger]
            state.statuses.contains_key(pane_id) && state.statuses[pane_id]
                == AgentStatus::Working,
{
}

/// The main loop begins with the statuses of the panes that the snapshot lists, with no
/// subscription and no process, and awaits its first poll.
pub proof fn law_main_loop_begins(panes: Seq<PaneView>)
    ensures
        driver_of(panes).monitor.statuses == statuses_of(panes),
        forall|pane_id: Seq<char>|
            !#[trigger] driver_of(panes).monitor.subscriptions.contains(pane_id),
        !driver_of(panes).monitor.caffeinated,
        driver_of(panes).pending is Poll,
{
}

/// The creation of a pane makes it known with the status that it was created with, changes no other
/// pane, and asks for a subscription to that pane exactly if there is none yet, whatever its
/// status.
pub proof fn law_created_pane_is_known(before: MonitorView, pane: PaneView)
    ensures
        ({
            let (after, reaction) = before.after_event(EventView::PaneCreated(pane));
            &&& after.statuses.contains_key(pane.pane_id)
            &&& after.statuses[pane.pane_id] == pane.agent_status
            &&& same_but_for(before.statuses, after.statuses, pane.pane_id)
            &&& after.subscriptions == before.subscriptions
            &&& after.caffeinated == before.caffeinated
            &&& reaction matches ReactionView::PaneCreated { pane: told, subscribe } && told == pane
                && (subscribe <==> !before.subscriptions.contains(pane.pane_id))
        }),
{
}

/// A created pane that is not subscribed to is subscribed to at once: the first task names exactly
/// that pane, whatever its status and whatever else is known. One that is subscribed to is not
/// subscribed to again.
pub proof fn law_created_pane_is_subscribed_to(
    state: DriverView,
    message: JsonView,
    pane: PaneView,
)
    requires
        decoded_event(message) == Ok::<_, DecodeErrorView>(EventView::PaneCreated(pane)),
    ensures
        state.after_message(MessageView::Lifecycle(message)) matches Ok((next, _, task)) && {
            &&& task == (if state.monitor.subscriptions.contains(pane.pane_id) {
                TaskView::Poll
            } else {
                TaskView::Subscribe(pane.pane_id)
            })
            &&& next.monitor.statuses.contains_key(pane.pane_id)
            &&& next.monitor.statuses[pane.pane_id] == pane.agent_status
        },
{
}

/// The closing of a pane makes it unknown, changes no other pane, and ends its subscription and no
/// other: the first task shuts down exactly that pane's socket, if it has one.
pub proof fn law_closed_pane_is_forgotten(
    state: DriverView,
    message: JsonView,
    pane_id: Seq<char>,
)
    requires
        decoded_event(message) == Ok::<_, DecodeErrorView>(EventView::PaneClosed(pane_id)),
    ensures
        state.after_message(MessageView::Lifecycle(message)) matches Ok((next, reaction, task)) && {
            &&& !next.monitor.statuses.contains_key(pane_id)
            &&& same_but_for(state.monitor.statuses, next.monitor.statuses, pane_id)
            &&& forall|other: Seq<char>| #[trigger]
                next.monitor.subscriptions.contains(other) <==> other != pane_id
                    && state.monitor.subscriptions.contains(other)
            &&& next.monitor.caffeinated == state.monitor.caffeinated
            &&& reaction matches ReactionView::PaneClosed { pane_id: told, unsubscribe } && told
                == pane_id && (unsubscribe <==> state.monitor.subscriptions.contains(pane_id))
            &&& task == (if state.monitor.subscriptions.contains(pane_id) {
                TaskView::Unsubscribe(pane_id)
            } else {
                TaskView::Poll
            })
        },
{
}

/// A lifecycle event of another kind changes nothing that is known, and `caffeinate` is still
/// reconciled.
pub proof fn law_other_event_only_reconciles(state: DriverView, message: JsonView)
    requires
        decoded_event(message) == Ok::<_, DecodeErrorView>(EventView::Other),
    ensures
        state.after_message(MessageView::Lifecycle(message)) matches Ok((next, reaction, task)) && {
            &&& next.monitor == state.monitor
            &&& reaction is OtherEvent
            &&& task == TaskView::Poll
        },
{
}

/// A lifecycle event that cannot be decoded is refused with the reason why.
pub proof fn law_undecodable_event_is_refused(
    state: DriverView,
    message: JsonView,
    error: DecodeErrorView,
)
    requires
        decoded_event(message) == Err::<EventView, _>(error),
    ensures
        state.after_message(MessageView::Lifecycle(message)) == Err::<
            (DriverView, ReactionView, TaskView),
            _,
        >(error),
        state.monitor.after_message(MessageView::Lifecycle(message)) == Err::<
            (MonitorView, ReactionView),
            _,
        >(error),
{
}

/// A status report is taken in, and `caffeinate` is reconciled with it at once.
pub proof fn law_report_is_taken_in(state: DriverView, report: PaneView)
    ensures
        state.after_message(MessageView::Status(report)) matches Ok((next, reaction, task)) && {
            let before = state.monitor.statuses;
            let after = next.monitor.statuses;
            &&& after.contains_key(report.pane_id) <==> before.contains_key(report.pane_id)
            &&& before.contains_key(report.pane_id) ==> after[report.pane_id]
                == report.agent_status
            &&& same_but_for(before, after, report.pane_id)
            &&& next.monitor.subscriptions == state.monitor.subscriptions
            &&& next.monitor.caffeinated == state.monitor.caffeinated
            &&& reaction == (ReactionView::StatusReported { pane: report })
            &&& task == TaskView::Poll
        },
{
}

/// A status socket that closed is no longer counted as a subscription, and no other is given up:
/// the first task drops exactly what belongs to it, if anything does.
pub proof fn law_closed_status_socket_is_released(state: DriverView, pane_id: Seq<char>)
    ensures
        state.after_message(MessageView::SocketClosed(Some(pane_id))) matches Ok(
            (next, reaction, task),
        ) && {
            &&& next.monitor.statuses == state.monitor.statuses
            &&& next.monitor.caffeinated == state.monitor.caffeinated
            &&& forall|other: Seq<char>| #[trigger]
                next.monitor.subscriptions.contains(other) <==> other != pane_id
                    && state.monitor.subscriptions.contains(other)
            &&& reaction matches ReactionView::StatusSocketClosed { pane_id: told, release } && told
                == pane_id && (release <==> state.monitor.subscriptions.contains(pane_id))
            &&& task == (if state.monitor.subscriptions.contains(pane_id) {
                TaskView::Release(pane_id)
            } else {
                TaskView::Poll
            })
        },
{
}

/// The end of the lifecycle socket changes nothing and asks for nothing.
pub proof fn law_closed_lifecycle_socket_is_noted(state: DriverView)
    ensures
        state.after_message(MessageView::SocketClosed(None)) matches Ok((next, reaction, task)) && {
            &&& next.monitor == state.monitor
            &&& next.pending is Nothing
            &&& reaction is LifecycleSocketClosed
            &&& task == TaskView::Wait
        },
{
}

/// A subscription that started is counted for its pane and for no other; one that did not changes
/// nothing.
pub proof fn law_subscription_is_counted(before: MonitorView, pane_id: Seq<char>, started: bool)
    ensures
        ({
            let after = before.after_subscribing(pane_id, started);
            &&& forall|other: Seq<char>| #[trigger]
                after.subscriptions.contains(other) <==> before.subscriptions.contains(other) || (
                started && other == pane_id)
            &&& after.statuses == before.statuses
            &&& after.caffeinated == before.caffeinated
        }),
{
}

/// Whether there is a process is known from the last attempt to start one.
pub proof fn law_start_is_counted(before: MonitorView, started: bool)
    ensures
        ({
            let after = before.after_starting(started);
            &&& after.caffeinated == started
            &&& after.statuses == before.statuses
            &&& after.subscriptions == before.subscriptions
        }),
{
}

/// `caffeinate` is started exactly if some pane is working and no process runs, and stopped exactly
/// if none is and one does; a process that has exited does not run. Nothing else changes.
pub proof fn law_reconciling_is_exact(before: MonitorView, exited: bool)
    ensures
        ({
            let (after, action) = before.reconciled(exited);
            let working = exists|pane_id: Seq<char>| #[trigger]
                before.statuses.contains_key(pane_id) && before.statuses[pane_id]
                    == AgentStatus::Working;
            let runs = before.caffeinated && !exited;
            &&& action == CaffeinateAction::Start <==> working && !runs
            &&& action == CaffeinateAction::Stop <==> !working && runs
            &&& action == CaffeinateAction::Keep <==> working == runs
            &&& after.caffeinated == (working && runs)
            &&& after.statuses == before.statuses
            &&& after.subscriptions == before.subscriptions
        }),
{
}

/// Whenever a poll is answered the task handed out is the one that reconciling calls for, whatever
/// panes are known: to start, to stop, or to wait.
pub proof fn law_poll_hands_out_the_action(state: DriverView, exited: bool)
    requires
        state.pending is Poll,
    ensures
        ({
            let (next, task) = state.after_answer(Answer::Polled(exited));
            let working = exists|pane_id: Seq<char>| #[trigger]
                state.monitor.statuses.contains_key(pane_id) && state.monitor.statuses[pane_id]
                    == AgentStatus::Working;
            let runs = state.monitor.caffeinated && !exited;
            &&& task == TaskView::Start <==> working && !runs
            &&& task == TaskView::Stop <==> !working && runs
            &&& task == TaskView::Wait <==> working == runs
            &&& next.pending is Start <==> task is Start
            &&& next.pending is Stop <==> task is Stop
            &&& next.pending is Nothing <==> task is Wait
            &&& next.monitor.statuses == state.monitor.statuses
            &&& next.monitor.subscriptions == state.monitor.subscriptions
        }),
{
}

/// What an answer that was awaited leads to: a start or a stop ends in waiting, and what precedes
/// reconciling leads to a poll.
pub proof fn law_answers_lead_on(state: DriverView, outcome: bool)
    ensures
        state.pending is Start ==> {
            let (next, task) = state.after_answer(Answer::Started(outcome));
            &&& task == TaskView::Wait
            &&& next.pending is Nothing
            &&& next.monitor.caffeinated == outcome
            &&& next.monitor.statuses == state.monitor.statuses
            &&& next.monitor.subscriptions == state.monitor.subscriptions
        },
        state.pending is Stop ==> {
            let (next, task) = state.after_answer(Answer::Done);
            &&& task == TaskView::Wait
            &&& next.pending is Nothing
            &&& next.monitor == state.monitor
        },
        state.pending is Removal ==> {
            let (next, task) = state.after_answer(Answer::Done);
            &&& task == TaskView::Poll
            &&& next.pending is Poll
            &&& next.monitor == state.monitor
        },
        state.pending matches PendingView::Subscription { pane_id, reconcile } ==> {
            let (next, task) = state.after_answer(Answer::Subscribed(outcome));
            &&& task == (if reconcile {
                TaskView::Poll
            } else {
                TaskView::Wait
            })
            &&& next.pending is Poll <==> reconcile
            &&& next.pending is Nothing <==> !reconcile
            &&& forall|other: Seq<char>| #[trigger]
                next.monitor.subscriptions.contains(other) <==> (
                state.monitor.subscriptions.contains(other) || (outcome && other == pane_id))
            &&& next.monitor.statuses == state.monitor.statuses
            &&& next.monitor.caffeinated == state.monitor.caffeinated
        },
{
}

/// `answer` is of the kind that is awaited.
pub open spec fn is_awaited(pending: PendingView, answer: Answer) -> bool {
    match answer {
        Answer::Subscribed(_) => pending is Subscription,
        Answer::Polled(_) => pending is Poll,
        Answer::Started(_) => pending is Start,
        Answer::Done => pending is Removal || pending is Stop,
    }
}

/// An answer that is not awaited changes nothing.
pub proof fn law_unawaited_answer_is_ignored(state: DriverView, answer: Answer)
    requires
        !is_awaited(state.pending, answer),
    ensures
        state.after_answer(answer) == (state, TaskView::Wait),
{
}

/// Watching a pane asks for a subscription to exactly that pane, unless it is subscribed to, and
/// leaves what is known as it is.
pub proof fn law_watching_asks_for_the_pane(state: DriverView, pane_id: Seq<char>)
    ensures
        ({
            let (next, task) = state.after_watching(pane_id);
            &&& next.monitor == state.monitor
            &&& state.monitor.subscriptions.contains(pane_id) ==> task == TaskView::Wait
                && next.pending is Nothing
            &&& !state.monitor.subscriptions.contains(pane_id) ==> task == TaskView::Subscribe(
                pane_id,
            ) && next.pending == (PendingView::Subscription { pane_id, reconcile: false })
        }),
{
}

/// `message` tells that `pane` was created.
pub open spec fn tells_created(message: MessageView, pane: PaneView) -> bool {
    message matches MessageView::Lifecycle(json) && decoded_event(json) == Ok::<
        _,
        DecodeErrorView,
    >(EventView::PaneCreated(pane))
}

/// `message` tells that the pane was closed.
pub open spec fn tells_closed(message: MessageView, pane_id: Seq<char>) -> bool {
    message matches MessageView::Lifecycle(json) && decoded_event(json) == Ok::<
        _,
        DecodeErrorView,
    >(EventView::PaneClosed(pane_id))
}

/// `message` tells something of the status of the pane, or that it was closed.
pub open spec fn tells_of(message: MessageView, pane_id: Seq<char>) -> bool {
    match message {
        MessageView::Lifecycle(json) => match decoded_event(json) {
            Ok(EventView::PaneCreated(pane)) => pane.pane_id == pane_id,
            Ok(EventView::PaneClosed(closed)) => closed == pane_id,
            _ => false,
        },
        MessageView::Status(report) => report.pane_id == pane_id,
        MessageView::SocketClosed(_) => false,
    }
}

/// What a round does to the status of one pane: a creation or a report sets it, a closing forgets
/// it, and a message that does not tell of the pane leaves it alone.
pub proof fn law_round_and_the_status(state: MonitorView, round: Round, pane_id: Seq<char>)
    ensures
        ({
            let before = state.statuses;
            let after = after_round(state, round).statuses;
            &&& forall|pane: PaneView| #[trigger]
                tells_created(round.message, pane) && pane.pane_id == pane_id
                    ==> after.contains_key(pane_id) && after[pane_id] == pane.agent_status
            &&& tells_closed(round.message, pane_id) ==> !after.contains_key(pane_id)
            &&& round.message matches MessageView::Status(report) ==> report.pane_id == pane_id
                ==> (after.contains_key(pane_id) <==> before.contains_key(pane_id)) && (
            before.contains_key(pane_id) ==> after[pane_id] == report.agent_status)
            &&& !tells_of(round.message, pane_id) ==> (after.contains_key(pane_id)
                <==> before.contains_key(pane_id)) && (before.contains_key(pane_id)
                ==> after[pane_id] == before[pane_id])
        }),
{
}

/// What is known of a pane is the latest that was told: after its creation, and until another
/// message tells of it, it has the status that it was created with.
pub proof fn law_created_status_lasts(
    state: MonitorView,
    rounds: Seq<Round>,
    at: int,
    pane: PaneView,
)
    requires
        0 <= at < rounds.len(),
        tells_created(rounds[at].message, pane),
        forall|later: int|
            at < later < rounds.len() ==> !tells_of(
                (#[trigger] rounds[later]).message,
                pane.pane_id,
            ),
    ensures
        after_rounds(state, rounds).statuses.contains_key(pane.pane_id),
        after_rounds(state, rounds).statuses[pane.pane_id] == pane.agent_status,
    decreases rounds.len(),
{
    let front = rounds.drop_last();
    let before = after_rounds(state, front);
    law_round_and_the_status(before, rounds.last(), pane.pane_id);
    if at < rounds.len() - 1 {
        assert forall|later: int| at < later < front.len() implies !tells_of(
            (#[trigger] front[later]).message,
            pane.pane_id,
        ) by {
            assert(front[later] == rounds[later]);
        }
        law_created_status_lasts(state, front, at, pane);
        assert(!tells_of(rounds[rounds.len() - 1].message, pane.pane_id));
    } else {
        assert(tells_created(rounds.last().message, pane));
    }
}

/// After a report on a pane that is known at that time, and until another message tells of it, the
/// pane has the status that was reported.
pub proof fn law_reported_status_lasts(
    state: MonitorView,
    rounds: Seq<Round>,
    at: int,
    report: PaneView,
)
    requires
        0 <= at < rounds.len(),
        rounds[at].message == MessageView::Status(report),
        after_rounds(state, rounds.take(at)).statuses.contains_key(report.pane_id),
        forall|later: int|
            at < later < rounds.len() ==> !tells_of(
                (#[trigger] rounds[later]).message,
                report.pane_id,
            ),
    ensures
        after_rounds(state, rounds).statuses.contains_key(report.pane_id),
        after_rounds(state, rounds).statuses[report.pane_id] == report.agent_status,
    decreases rounds.len(),
{
    let front = rounds.drop_last();
    let before = after_rounds(state, front);
    law_round_and_the_status(before, rounds.last(), report.pane_id);
    if at < rounds.len() - 1 {
        assert(front.take(at) =~= rounds.take(at));
        assert forall|later: int| at < later < front.len() implies !tells_of(
            (#[trigger] front[later]).message,
            report.pane_id,
        ) by {
            assert(front[later] == rounds[later]);
        }
        law_reported_status_lasts(state, front, at, report);
        assert(!tells_of(rounds[rounds.len() - 1].message, report.pane_id));
    } else {
        assert(front =~= rounds.take(at));
    }
}

/// A pane that messages do not tell of keeps what is known of it, whatever happens to others.
pub proof fn law_untold_pane_stays(state: MonitorView, rounds: Seq<Round>, pane_id: Seq<char>)
    requires
        forall|i: int|
            0 <= i < rounds.len() ==> !tells_of((#[trigger] rounds[i]).message, pane_id),
    ensures
        after_rounds(state, rounds).statuses.contains_key(pane_id)
            <==> state.statuses.contains_key(pane_id),
        state.statuses.contains_key(pane_id) ==> after_rounds(state, rounds).statuses[pane_id]
            == state.statuses[pane_id],
    decreases rounds.len(),
{
    if rounds.len() > 0 {
        let front = rounds.drop_last();
        assert forall|i: int| 0 <= i < front.len() implies !tells_of(
            (#[trigger] front[i]).message,
            pane_id,
        ) by {
            assert(front[i] == rounds[i]);
        }
        law_untold_pane_stays(state, front, pane_id);
        law_round_and_the_status(after_rounds(state, front), rounds.last(), pane_id);
        assert(!tells_of(rounds[rounds.len() - 1].message, pane_id));
    }
}

/// A pane that was closed stays unknown until it is created again, whatever is reported of it.
pub proof fn law_closed_pane_stays_unknown(
    state: MonitorView,
    rounds: Seq<Round>,
    at: int,
    pane_id: Seq<char>,
)
    requires
        0 <= at < rounds.len(),
        tells_closed(rounds[at].message, pane_id),
        forall|later: int, pane: PaneView|
            at < later < rounds.len() && pane.pane_id == pane_id ==> !#[trigger] tells_created(
                rounds[later].message,
                pane,
            ),
    ensures
        !after_rounds(state, rounds).statuses.contains_key(pane_id),
    decreases rounds.len(),
{
    let front = rounds.drop_last();
    let before = after_rounds(state, front);
    law_round_and_the_status(before, rounds.last(), pane_id);
    if at < rounds.len() - 1 {
        assert forall|later: int, pane: PaneView|
            at < later < front.len() && pane.pane_id == pane_id implies !#[trigger] tells_created(
            front[later].message,
            pane,
        ) by {
            assert(front[later] == rounds[later]);
            assert(!tells_created(rounds[later].message, pane));
        }
        law_closed_pane_stays_unknown(state, front, at, pane_id);
        let last = rounds[rounds.len() - 1].message;
        if let MessageView::Lifecycle(json) = last {
            if let Ok(EventView::PaneCreated(pane)) = decoded_event(json) {
                if pane.pane_id == pane_id {
                    assert(!tells_created(last, pane));
                }
            }
        }
    }
}

/// `message` ends the subscription to the pane.
pub open spec fn ends_subscription(message: MessageView, pane_id: Seq<char>) -> bool {
    tells_closed(message, pane_id) || message == MessageView::SocketClosed(Some(pane_id))
}

/// What a round does to the subscription to one pane: a creation whose subscription starts makes
/// one, the end of the pane or of its socket ends it, and nothing else changes it.
pub proof fn law_round_and_the_subscription(
    state: MonitorView,
    round: Round,
    pane_id: Seq<char>,
)
    ensures
        ({
            let before = state.subscriptions.contains(pane_id);
            let after = after_round(state, round).subscriptions.contains(pane_id);
            &&& forall|pane: PaneView| #[trigger]
                tells_created(round.message, pane) && pane.pane_id == pane_id ==> (after <==> before
                    || round.subscribed)
            &&& ends_subscription(round.message, pane_id) ==> !after
            &&& !ends_subscription(round.message, pane_id) && (forall|pane: PaneView|
                pane.pane_id == pane_id ==> !#[trigger] tells_created(round.message, pane)) ==> (
            after <==> before)
        }),
{
    if let MessageView::Lifecycle(json) = round.message {
        if let Ok(EventView::PaneCreated(pane)) = decoded_event(json) {
            assert(tells_created(round.message, pane));
        }
    }
}

/// A pane that was created, and whose subscription started, stays subscribed to until it is closed
/// or its socket is, whatever its status and whatever other messages come.
pub proof fn law_created_pane_stays_watched(
    state: MonitorView,
    rounds: Seq<Round>,
    at: int,
    pane: PaneView,
)
    requires
        0 <= at < rounds.len(),
        tells_created(rounds[at].message, pane),
        rounds[at].subscribed,
        forall|later: int|
            at < later < rounds.len() ==> !ends_subscription(
                (#[trigger] rounds[later]).message,
                pane.pane_id,
            ),
    ensures
        after_rounds(state, rounds).subscriptions.contains(pane.pane_id),
    decreases rounds.len(),
{
    let front = rounds.drop_last();
    let before = after_rounds(state, front);
    let last = rounds.last();
    law_round_and_the_subscription(before, last, pane.pane_id);
    if at < rounds.len() - 1 {
        assert forall|later: int| at < later < front.len() implies !ends_subscription(
            (#[trigger] front[later]).message,
            pane.pane_id,
        ) by {
            assert(front[later] == rounds[later]);
        }
        law_created_pane_stays_watched(state, front, at, pane);
        assert(!ends_subscription(rounds[rounds.len() - 1].message, pane.pane_id));
    } else {
        assert(tells_created(last.message, pane));
    }
}

} // verus!
