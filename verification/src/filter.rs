//! Which tasks the list shows: all of them, the open ones or the done ones.

use vstd::prelude::*;

use crate::task::{TaskObject, TaskView};

verus! {

/// The three ways the task list can be filtered.
#[derive(Clone, Copy, Debug, PartialEq, Eq, Structural)]
pub enum TaskFilter {
    All,
    Open,
    Done,
}

/// The filter that a stored setting names: "All", "Open" or "Done"; no other text names one.
pub open spec fn filter_named(state: Seq<char>) -> Option<TaskFilter> {
    if state == "All"@ {
        Some(TaskFilter::All)
    } else if state == "Open"@ {
        Some(TaskFilter::Open)
    } else if state == "Done"@ {
        Some(TaskFilter::Done)
    } else {
        None
    }
}

impl TaskFilter {
    /// Whether a task passes the filter.
    pub open spec fn admits(self, task: TaskView) -> bool {
        match self {
            TaskFilter::All => true,
            TaskFilter::Open => !task.completed,
            TaskFilter::Done => task.completed,
        }
    }

    /// Whether the setting text names a filter.
    pub fn names_filter(state: &str) -> (res: bool)
        ensures
            res == (filter_named(state@) is Some),
    {
        let state = state.to_owned();
        state == "All".to_owned() || state == "Open".to_owned() || state == "Done".to_owned()
    }

    /// The filter that the setting text names.
    pub fn from_setting(state: &str) -> (res: TaskFilter)
        requires
            filter_named(state@) is Some,
        ensures
            filter_named(state@) == Some(res),
    {
        let state = state.to_owned();
        if state == "All".to_owned() {
            TaskFilter::All
        } else if state == "Open".to_owned() {
            TaskFilter::Open
        } else {
            TaskFilter::Done
        }
    }

    /// Whether the task passes the filter.
    pub fn accepts(&self, task: &TaskObject) -> (res: bool)
        ensures
            res == self.admits(task@),
    {
        match self {
            TaskFilter::All => true,
            TaskFilter::Open => !task.is_completed(),
            TaskFilter::Done => task.is_completed(),
        }
    }
}

} // verus!
