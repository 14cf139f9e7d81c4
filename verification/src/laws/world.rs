//! What the tasks alone bring about: which sockets are open and whether `caffeinate` runs.
use crate::driver::{driver_of, Answer, DriverView, PendingView, TaskView};
use crate::launch::{launches, LaunchStepView, LaunchView};
use crate::laws::state::{
    ends_subscription, law_listed_panes_are_known, law_round_and_the_subscription,
};
use crate::laws::{
    after_launch, after_rounds, after_tasks, after_watching_each, answer_in, at_start,
    law_launch_keeps_its_order, law_rounds_keep_awake_exactly, law_tasks_make_a_round,
    law_tasks_make_the_start, law_watching_subscribes, Round,
};
use crate::messages::buffered_events;
use crate::model::{AgentStatus, PaneView};
use crate::monitor::MonitorView;
use vstd::prelude::*;

verus! {

/// What there is outside the library: whether a `caffeinate` process runs, and the panes whose
/// status sockets are open.
#[verifier::ext_equal]
pub struct World {
    pub running: bool,
    pub sockets: Set<Seq<char>>,
}

/// What carrying out a task brings about, where the work turns out as `round` says. A poll finds
/// out that the process has exited.
pub open spec fn after_work(world: World, task: TaskView, round: Round) -> World {
    match task {
        TaskView::Wait => world,
        TaskView::Subscribe(pane_id) => if round.subscribed {
            World { sockets: world.sockets.insert(pane_id), ..world }
        } else {
            world
        },
        TaskView::Unsubscribe(pane_id) => World { sockets: world.sockets.remove(pane_id), ..world },
        TaskView::Release(pane_id) => World { sockets: world.sockets.remove(pane_id), ..world },
        TaskView::Poll => World { running: world.running && !round.exited, ..world },
        TaskView::Start => World { running: round.started, ..world },
        TaskView::Stop => World { running: false, ..world },
    }
}

/// What carrying out a task and those that follow from it brings about, at most `limit` of them.
pub open spec fn world_after_tasks(
    world: World,
    state: DriverView,
    task: TaskView,
    round: Round,
    limit: nat,
) -> World
    decreases limit,
{
    if task is Wait || limit == 0 {
        world
    } else {
        let (next, following) = state.after_answer(answer_in(round, task));
        world_after_tasks(
            after_work(world, task, round),
            next,
            following,
            round,
            (limit - 1) as nat,
        )
    }
}

/// What is known of the world is so.
pub open spec fn agrees(world: World, known: MonitorView) -> bool {
    &&& world.running == known.caffeinated
    &&& world.sockets =~= known.subscriptions
}

/// What the tasks of a round bring about is what is known after it: a process is taken to run
/// exactly if it was started and neither stopped nor found to have exited, and a pane is taken to be
/// subscribed to exactly if its socket was opened and neither shut down nor dropped.
pub proof fn law_round_knows_the_world(state: DriverView, world: World, round: Round)
    requires
        agrees(world, state.monitor),
    ensures
        state.after_message(round.message) matches Ok((next, _, task)) ==> {
            &&& agrees(
                world_after_tasks(world, next, task, round, 3),
                after_tasks(next, task, round, 3).monitor,
            )
            &&& after_tasks(next, task, round, 3).pending is Nothing
        },
{
    reveal_with_fuel(after_tasks, 4);
    reveal_with_fuel(world_after_tasks, 4);
}

/// The main loop and the world after several rounds. A message that cannot be decoded asks for
/// nothing.
pub open spec fn live(state: DriverView, world: World, rounds: Seq<Round>) -> (DriverView, World)
    decreases rounds.len(),
{
    if rounds.len() == 0 {
        (state, world)
    } else {
        let (before, around) = live(state, world, rounds.drop_last());
        let round = rounds.last();
        match before.after_message(round.message) {
            Err(_) => (before, around),
            Ok((next, _, task)) => (
                after_tasks(next, task, round, 3),
                world_after_tasks(around, next, task, round, 3),
            ),
        }
    }
}

/// Whatever messages come and however the work turns out, what is known of the world is so.
pub proof fn law_world_is_known(state: DriverView, world: World, rounds: Seq<Round>)
    requires
        agrees(world, state.monitor),
        state.pending is Nothing,
    ensures
        ({
            let (after, around) = live(state, world, rounds);
            &&& agrees(around, after.monitor)
            &&& after.pending is Nothing
            &&& after.monitor == after_rounds(state.monitor, rounds)
        }),
    decreases rounds.len(),
{
    if rounds.len() > 0 {
        law_world_is_known(state, world, rounds.drop_last());
        let (before, around) = live(state, world, rounds.drop_last());
        law_round_knows_the_world(before, around, rounds.last());
        law_tasks_make_a_round(before, rounds.last());
    }
}

/// The world before the first task: no process runs and no status socket is open.
pub open spec fn empty_world() -> World {
    World { running: false, sockets: Set::empty() }
}

/// The tasks that follow the snapshot start a process exactly if the snapshot leaves some pane
/// working and the start succeeds; no socket is opened yet.
pub proof fn law_start_knows_the_world(panes: Seq<PaneView>, round: Round)
    ensures
        ({
            let around = world_after_tasks(
                empty_world(),
                driver_of(panes),
                TaskView::Poll,
                round,
                2,
            );
            &&& agrees(around, at_start(panes, round.started))
            &&& around.running <==> driver_of(panes).monitor.working() && round.started
            &&& around.sockets == Set::<Seq<char>>::empty()
        }),
{
    reveal_with_fuel(world_after_tasks, 3);
    law_tasks_make_the_start(panes, round);
}

/// The world after each of several panes has been watched in turn, where the subscriptions to the
/// panes in `starting` start and no others do.
pub open spec fn world_after_watching(
    state: DriverView,
    world: World,
    pane_ids: Seq<Seq<char>>,
    starting: Set<Seq<char>>,
) -> World
    decreases pane_ids.len(),
{
    if pane_ids.len() == 0 {
        world
    } else {
        let front = pane_ids.drop_last();
        let around = world_after_watching(state, world, front, starting);
        match after_watching_each(state, front, starting).after_watching(pane_ids.last()).1 {
            TaskView::Subscribe(pane_id) => if starting.contains(pane_id) {
                World { sockets: around.sockets.insert(pane_id), ..around }
            } else {
                around
            },
            _ => around,
        }
    }
}

/// Watching panes opens a socket for each of them whose subscription starts, and closes none.
pub proof fn law_watching_knows_the_world(
    state: DriverView,
    world: World,
    pane_ids: Seq<Seq<char>>,
    starting: Set<Seq<char>>,
)
    requires
        agrees(world, state.monitor),
        state.pending is Nothing,
    ensures
        agrees(
            world_after_watching(state, world, pane_ids, starting),
            after_watching_each(state, pane_ids, starting).monitor,
        ),
    decreases pane_ids.len(),
{
    if pane_ids.len() > 0 {
        law_watching_knows_the_world(state, world, pane_ids.drop_last(), starting);
    }
}

/// The process runs exactly while some pane is working, whatever messages come, as long as every
/// attempt to start it succeeds: by the tasks that are handed out, and not only by what is known.
pub proof fn law_process_runs_exactly_while_working(
    panes: Seq<PaneView>,
    start: Round,
    rounds: Seq<Round>,
)
    requires
        start.started,
        forall|i: int| 0 <= i < rounds.len() ==> (#[trigger] rounds[i]).started,
    ensures
        ({
            let begun = after_tasks(driver_of(panes), TaskView::Poll, start, 2);
            let around = world_after_tasks(
                empty_world(),
                driver_of(panes),
                TaskView::Poll,
                start,
                2,
            );
            let (after, world) = live(begun, around, rounds);
            world.running <==> exists|pane_id: Seq<char>| #[trigger]
                after.monitor.statuses.contains_key(pane_id) && after.monitor.statuses[pane_id]
                    == AgentStatus::Working
        }),
{
    law_start_knows_the_world(panes, start);
    law_tasks_make_the_start(panes, start);
    let begun = after_tasks(driver_of(panes), TaskView::Poll, start, 2);
    let around = world_after_tasks(empty_world(), driver_of(panes), TaskView::Poll, start, 2);
    law_world_is_known(begun, around, rounds);
    law_rounds_keep_awake_exactly(begun.monitor, rounds);
}

/// No process runs while no pane is working, whether or not it can be started, once a round is
/// over.
pub proof fn law_no_process_without_work(state: DriverView, world: World, round: Round)
    requires
        agrees(world, state.monitor),
    ensures
        state.after_message(round.message) matches Ok((next, reaction, task))
            ==> !(reaction is LifecycleSocketClosed) ==> {
            let after = after_tasks(next, task, round, 3);
            world_after_tasks(world, next, task, round, 3).running ==> exists|pane_id: Seq<char>|
                #[trigger]
                after.monitor.statuses.contains_key(pane_id) && after.monitor.statuses[pane_id]
                    == AgentStatus::Working
        },
{
    reveal_with_fuel(after_tasks, 4);
    reveal_with_fuel(world_after_tasks, 4);
}

/// A process that runs while some pane is working is neither stopped nor started a second time.
pub proof fn law_running_process_is_left_alone(state: DriverView, exited: bool)
    requires
        state.pending is Poll,
        state.monitor.caffeinated,
        !exited,
        state.monitor.working(),
    ensures
        state.after_answer(Answer::Polled(exited)).1 == TaskView::Wait,
{
}

/// What is left to do at first is to watch every known pane, each once.
pub proof fn law_launch_lists_every_pane(
    launch: LaunchView,
    driver: DriverView,
    task: TaskView,
    buffered: Seq<Seq<char>>,
)
    requires
        launches(launch, driver, task, buffered),
    ensures
        launch.driver == driver,
        launch.task == Some(task),
        forall|pane_id: Seq<char>| #[trigger]
            driver.monitor.statuses.contains_key(pane_id) <==> exists|at: int|
                0 <= at < launch.unwatched.len() && launch.unwatched[at] == pane_id,
        forall|i: int, j: int|
            0 <= i < j < launch.unwatched.len() ==> launch.unwatched[i] != launch.unwatched[j],
        launch.messages == buffered_events(buffered).0,
        launch.failure == buffered_events(buffered).1,
{
    assert forall|pane_id: Seq<char>| #[trigger]
        driver.monitor.statuses.contains_key(pane_id) <==> exists|at: int|
            0 <= at < launch.unwatched.len() && launch.unwatched[at] == pane_id by {
        assert(launch.unwatched.to_set().contains(pane_id) <==> launch.unwatched.contains(
            pane_id,
        ));
    }
}

/// The steps of the launch, one by one: the first task as it was given; then a pane, the first that
/// is left, is watched; then a message, the first that is left, is taken in; then the failure, or
/// the live messages. What a step does not concern stays as it is.
pub proof fn law_launch_steps(state: LaunchView)
    ensures
        state.task matches Some(first) ==> state.next() == (LaunchStepView::Perform {
            task: first,
            next: LaunchView { task: None, ..state },
        }),
        state.task is None && state.unwatched.len() > 0 ==> (state.next() matches
            LaunchStepView::Perform { task, next } && {
            &&& (next.driver, task) == state.driver.after_watching(state.unwatched[0])
            &&& next.unwatched.len() == state.unwatched.len() - 1
            &&& forall|at: int|
                0 <= at < next.unwatched.len() ==> #[trigger] next.unwatched[at]
                    == state.unwatched[at + 1]
            &&& next.messages == state.messages
            &&& next.failure == state.failure
            &&& next.task is None
        }),
        state.task is None && state.unwatched.len() == 0 && state.messages.len() > 0 ==> {
            let after = match state.next() {
                LaunchStepView::Handled { next, .. } => next,
                LaunchStepView::Ignored { next, .. } => next,
                _ => state,
            };
            &&& match state.driver.after_message(state.messages[0]) {
                Ok((driver, reaction, task)) => state.next() == (LaunchStepView::Handled {
                    reaction,
                    task,
                    next: after,
                }) && after.driver == driver,
                Err(error) => state.next() == (LaunchStepView::Ignored { error, next: after })
                    && after.driver == state.driver,
            }
            &&& after.messages.len() == state.messages.len() - 1
            &&& forall|at: int|
                0 <= at < after.messages.len() ==> #[trigger] after.messages[at]
                    == state.messages[at + 1]
            &&& after.unwatched == state.unwatched
            &&& after.failure == state.failure
            &&& after.task is None
        },
        state.task is None && state.unwatched.len() == 0 && state.messages.len() == 0
            ==> state.next() == (match state.failure {
            Some(error) => LaunchStepView::Failed(error),
            None => LaunchStepView::Live(state.driver),
        }),
{
}

/// A subscription lasts until a message ends it.
proof fn lemma_subscription_lasts(state: MonitorView, rounds: Seq<Round>, pane_id: Seq<char>)
    requires
        state.subscriptions.contains(pane_id),
        forall|i: int|
            0 <= i < rounds.len() ==> !ends_subscription((#[trigger] rounds[i]).message, pane_id),
    ensures
        after_rounds(state, rounds).subscriptions.contains(pane_id),
    decreases rounds.len(),
{
    if rounds.len() > 0 {
        let front = rounds.drop_last();
        assert forall|i: int| 0 <= i < front.len() implies !ends_subscription(
            (#[trigger] front[i]).message,
            pane_id,
        ) by {
            assert(front[i] == rounds[i]);
        }
        lemma_subscription_lasts(state, front, pane_id);
        assert(!ends_subscription(rounds[rounds.len() - 1].message, pane_id));
        law_round_and_the_subscription(after_rounds(state, front), rounds.last(), pane_id);
    }
}

/// When the launch is over every pane that the snapshot lists is subscribed to, if its subscription
/// started and no kept message ended it, whatever its status.
pub proof fn law_listed_panes_are_watched(
    panes: Seq<PaneView>,
    buffered: Seq<Seq<char>>,
    launch: LaunchView,
    start: Round,
    starting: Set<Seq<char>>,
    rounds: Seq<Round>,
    at: int,
)
    requires
        launches(launch, driver_of(panes), TaskView::Poll, buffered),
        rounds.len() == launch.messages.len(),
        forall|i: int|
            0 <= i < rounds.len() ==> (#[trigger] rounds[i]).message == buffered_events(
                buffered,
            ).0[i],
        0 <= at < panes.len(),
        starting.contains(panes[at].pane_id),
        forall|i: int|
            0 <= i < rounds.len() ==> !ends_subscription(
                (#[trigger] rounds[i]).message,
                panes[at].pane_id,
            ),
    ensures
        after_launch(launch, start, starting, rounds).0.monitor.subscriptions.contains(
            panes[at].pane_id,
        ),
{
    let pane_id = panes[at].pane_id;
    law_launch_keeps_its_order(panes, buffered, launch, start, starting, rounds);
    let begun = DriverView {
        monitor: at_start(panes, start.started),
        pending: PendingView::Nothing,
    };
    law_watching_subscribes(begun, launch.unwatched, starting);
    law_listed_panes_are_known(panes);
    assert(driver_of(panes).monitor.statuses.contains_key(pane_id));
    assert(launch.unwatched.to_set().contains(pane_id));
    let watched = after_watching_each(begun, launch.unwatched, starting);
    assert(watched.monitor.subscriptions.contains(pane_id));
    lemma_subscription_lasts(watched.monitor, rounds, pane_id);
}

} // verus!
