//! A single task: whether it is done, and what it says.

use vstd::prelude::*;

verus! {

/// The mathematical model of a task.
pub struct TaskView {
    pub completed: bool,
    pub content: Seq<char>,
}

/// The plain, serialisable form of a task.
pub struct TaskData {
    pub completed: bool,
    pub content: String,
}

impl View for TaskData {
    type V = TaskView;

    open spec fn view(&self) -> TaskView {
        TaskView { completed: self.completed, content: self.content@ }
    }
}

impl Clone for TaskData {
    fn clone(&self) -> (res: Self)
        ensures
            res@ == self@,
    {
        TaskData { completed: self.completed, content: self.content.clone() }
    }
}

impl Default for TaskData {
    fn default() -> (res: Self)
        ensures
            res@ == (TaskView { completed: false, content: Seq::empty() }),
    {
        TaskData { completed: false, content: String::new() }
    }
}

/// A task as the window holds it: its data behind accessors.
pub struct TaskObject {
    data: TaskData,
}

impl View for TaskObject {
    type V = TaskView;

    closed spec fn view(&self) -> TaskView {
        self.data@
    }
}

impl TaskObject {
    /// A task with the given state and text.
    pub fn new(completed: bool, content: String) -> (res: Self)
        ensures
            res@ == (TaskView { completed, content: content@ }),
    {
        TaskObject { data: TaskData { completed, content } }
    }

    /// Whether the task is done.
    pub fn is_completed(&self) -> (res: bool)
        ensures
            res == self@.completed,
    {
        self.data.completed
    }

    /// A copy of the task's data.
    pub fn task_data(&self) -> (res: TaskData)
        ensures
            res@ == self@,
    {
        self.data.clone()
    }

    /// The task that holds the given data.
    pub fn from_task_data(task_data: TaskData) -> (res: Self)
        ensures
            res@ == task_data@,
    {
        Self::new(task_data.completed, task_data.content)
    }

    /// Whether the task is done.
    pub fn completed(&self) -> (res: bool)
        ensures
            res == self@.completed,
    {
        self.data.completed
    }

    /// The task's text.
    pub fn content(&self) -> (res: String)
        ensures
            res@ == self@.content,
    {
        self.data.content.clone()
    }

    /// Replaces the task's text.
    pub fn set_content(&mut self, content: String)
        ensures
            final(self)@ == (TaskView { completed: old(self)@.completed, content: content@ }),
    {
        self.data.content = content;
    }

    /// Marks the task done or open.
    pub fn set_completed(&mut self, completed: bool)
        ensures
            final(self)@ == (TaskView { completed, content: old(self)@.content }),
    {
        self.data.completed = completed;
    }
}

} // verus!
