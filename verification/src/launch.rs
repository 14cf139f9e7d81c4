//! Entering the main loop: reconcile `caffeinate` with the snapshot, watch every pane, take in the
//! lines that were kept, and only then wait for live messages.
use crate::decode::{DecodeError, DecodeErrorView};
use crate::driver::{Answer, Driver, DriverView, Task, TaskView};
use crate::messages::{
    buffered_events, message_views, read_buffered_events, MessageError, MessageErrorView,
};
use crate::model::{HerdrMessage, MessageView};
use crate::monitor::{Monitor, Reaction, ReactionView};
use crate::text::text_views;
use vstd::prelude::*;

verus! {

/// What is left to do before the main loop waits for live messages.
pub struct Launch {
    driver: Driver,
    task: Option<Task>,
    unwatched: Vec<String>,
    messages: Vec<HerdrMessage>,
    failure: Option<MessageError>,
}

/// The model of [`Launch`].
#[verifier::ext_equal]
pub struct LaunchView {
    pub driver: DriverView,
    /// The first task, while it is still to be handed out.
    pub task: Option<TaskView>,
    /// The panes that are still to be watched.
    pub unwatched: Seq<Seq<char>>,
    /// The kept messages that are still to be taken in.
    pub messages: Seq<MessageView>,
    /// Why the kept lines after those messages cannot be read, if they cannot.
    pub failure: Option<MessageErrorView>,
}

/// The model of an optional task.
spec fn optional_task(task: Option<Task>) -> Option<TaskView> {
    match task {
        Some(task) => Some(task@),
        None => None,
    }
}

/// The model of an optional failure.
spec fn optional_failure(failure: Option<MessageError>) -> Option<MessageErrorView> {
    match failure {
        Some(error) => Some(error@),
        None => None,
    }
}

impl View for Launch {
    type V = LaunchView;

    closed spec fn view(&self) -> LaunchView {
        LaunchView {
            driver: self.driver@,
            task: optional_task(self.task),
            unwatched: text_views(self.unwatched@),
            messages: message_views(self.messages@),
            failure: optional_failure(self.failure),
        }
    }
}

/// The next step.
pub enum LaunchStep {
    /// Carry out the task, and those that follow from it.
    Perform { task: Task, next: Launch },
    /// A kept message was taken in. Carry out the task, and those that follow from it.
    Handled { reaction: Reaction, task: Task, next: Launch },
    /// A kept message cannot be decoded, and is ignored.
    Ignored { error: DecodeError, next: Launch },
    /// A kept line cannot be read: stop.
    Failed(MessageError),
    /// Wait for live messages.
    Live(Driver),
}

/// The model of [`LaunchStep`].
pub enum LaunchStepView {
    Perform { task: TaskView, next: LaunchView },
    Handled { reaction: ReactionView, task: TaskView, next: LaunchView },
    Ignored { error: DecodeErrorView, next: LaunchView },
    Failed(MessageErrorView),
    Live(DriverView),
}

impl View for LaunchStep {
    type V = LaunchStepView;

    open spec fn view(&self) -> LaunchStepView {
        match self {
            LaunchStep::Perform { task, next } => LaunchStepView::Perform {
                task: task@,
                next: next@,
            },
            LaunchStep::Handled { reaction, task, next } => LaunchStepView::Handled {
                reaction: reaction@,
                task: task@,
                next: next@,
            },
            LaunchStep::Ignored { error, next } => LaunchStepView::Ignored {
                error: error@,
                next: next@,
            },
            LaunchStep::Failed(error) => LaunchStepView::Failed(error@),
            LaunchStep::Live(driver) => LaunchStepView::Live(driver@),
        }
    }
}

impl LaunchView {
    /// How many steps are left before the last.
    pub open spec fn left(self) -> nat {
        let first: nat = if self.task is Some {
            1
        } else {
            0
        };
        first + self.unwatched.len() + self.messages.len()
    }

    /// The next step: the first task, then the panes in turn, then the kept messages in turn, then
    /// the failure or the live messages.
    pub open spec fn next(self) -> LaunchStepView {
        if let Some(task) = self.task {
            LaunchStepView::Perform { task, next: LaunchView { task: None, ..self } }
        } else if self.unwatched.len() > 0 {
            let (driver, task) = self.driver.after_watching(self.unwatched.first());
            LaunchStepView::Perform {
                task,
                next: LaunchView { driver, unwatched: self.unwatched.drop_first(), ..self },
            }
        } else if self.messages.len() > 0 {
            let rest = LaunchView { messages: self.messages.drop_first(), ..self };
            match self.driver.after_message(self.messages.first()) {
                Ok((driver, reaction, task)) => LaunchStepView::Handled {
                    reaction,
                    task,
                    next: LaunchView { driver, ..rest },
                },
                Err(error) => LaunchStepView::Ignored { error, next: rest },
            }
        } else {
            match self.failure {
                Some(error) => LaunchStepView::Failed(error),
                None => LaunchStepView::Live(self.driver),
            }
        }
    }
}

/// `launch` is what is left to do at first: to carry out `task`, to watch every pane that is known
/// once, in some order, and to take in the kept lines.
pub open spec fn launches(
    launch: LaunchView,
    driver: DriverView,
    task: TaskView,
    buffered: Seq<Seq<char>>,
) -> bool {
    &&& launch.driver == driver
    &&& launch.task == Some(task)
    &&& launch.unwatched.no_duplicates()
    &&& launch.unwatched.to_set() == driver.monitor.statuses.dom()
    &&& (launch.messages, launch.failure) == buffered_events(buffered)
}

impl Launch {
    /// Begins with what the start gave: the main loop, its first task and the kept lines.
    pub fn new(driver: Driver, task: Task, buffered: &Vec<String>) -> (launch: Launch)
        ensures
            launches(launch@, driver@, task@, text_views(buffered@)),
    {
        let unwatched = driver.monitor().pane_ids();
        let (messages, failure) = read_buffered_events(buffered);
        Launch { driver, task: Some(task), unwatched, messages, failure }
    }

    /// What is known.
    pub fn monitor(&self) -> (monitor: &Monitor)
        ensures
            monitor@ == self@.driver.monitor,
    {
        self.driver.monitor()
    }

    /// Takes in how the last task turned out, and says what to do next. The tasks of a step are
    /// answered before the next step.
    pub fn answer(&mut self, answer: Answer) -> (task: Task)
        ensures
            ({
                let (driver, following) = old(self)@.driver.after_answer(answer);
                &&& final(self)@ == (LaunchView { driver, ..old(self)@ })
                &&& task@ == following
            }),
    {
        self.driver.answer(answer)
    }

    /// Hands out the next step.
    pub fn next(self) -> (step: LaunchStep)
        ensures
            step@ == self@.next(),
    {
        let mut launch = self;
        if launch.task.is_some() {
            let mut task: Option<Task> = None;
            std::mem::swap(&mut task, &mut launch.task);
            if let Some(task) = task {
                return LaunchStep::Perform { task, next: launch };
            }
        }
        if launch.unwatched.len() > 0 {
            let pane_id = launch.unwatched.remove(0);
            assert(text_views(launch.unwatched@) =~= self@.unwatched.drop_first());
            let task = launch.driver.ensure_status_subscription(pane_id.as_str());
            return LaunchStep::Perform { task, next: launch };
        }
        if launch.messages.len() > 0 {
            let message = launch.messages.remove(0);
            assert(message_views(launch.messages@) =~= self@.messages.drop_first());
            return match launch.driver.handle_message(message) {
                Ok((reaction, task)) => LaunchStep::Handled { reaction, task, next: launch },
                Err(error) => LaunchStep::Ignored { error, next: launch },
            };
        }
        match launch.failure {
            Some(error) => LaunchStep::Failed(error),
            None => LaunchStep::Live(launch.driver),
        }
    }
}

} // verus!
