//! A named list of tasks, and what can be done to its tasks.

use vstd::prelude::*;

use crate::filter::TaskFilter;
use crate::task::{TaskData, TaskObject, TaskView};

verus! {

broadcast use vstd::seq::Seq::lemma_filter_push;

/// The models of a sequence of task objects.
pub open spec fn object_views(s: Seq<TaskObject>) -> Seq<TaskView> {
    s.map_values(|t: TaskObject| t@)
}

/// The models of a sequence of task data.
pub open spec fn data_views(s: Seq<TaskData>) -> Seq<TaskView> {
    s.map_values(|t: TaskData| t@)
}

/// The tasks that are not done, in their order.
pub open spec fn open_tasks(s: Seq<TaskView>) -> Seq<TaskView> {
    s.filter(|t: TaskView| !t.completed)
}

/// The positions `0, 1, ..., n - 1`.
pub open spec fn index_seq(n: nat) -> Seq<usize> {
    Seq::new(n, |i: int| i as usize)
}

/// Whether the task at a position of `s` passes the filter.
pub open spec fn shown_by(s: Seq<TaskView>, filter: TaskFilter) -> spec_fn(usize) -> bool {
    |i: usize| filter.admits(s[i as int])
}

/// The positions below `n`, in increasing order, whose task in `s` passes the filter.
pub open spec fn positions_below(n: nat, s: Seq<TaskView>, filter: TaskFilter) -> Seq<usize> {
    index_seq(n).filter(shown_by(s, filter))
}

/// The positions, in increasing order, of the tasks of `s` that pass the filter.
pub open spec fn visible_positions(s: Seq<TaskView>, filter: TaskFilter) -> Seq<usize> {
    positions_below(s.len(), s, filter)
}

/// The mathematical model of a collection.
pub struct CollectionView {
    pub title: Seq<char>,
    pub tasks: Seq<TaskView>,
}

/// The plain, serialisable form of a collection.
pub struct CollectionData {
    pub title: String,
    pub tasks_data: Vec<TaskData>,
}

impl View for CollectionData {
    type V = CollectionView;

    open spec fn view(&self) -> CollectionView {
        CollectionView { title: self.title@, tasks: data_views(self.tasks_data@) }
    }
}

/// A collection as the window holds it: a title and its tasks.
pub struct CollectionObject {
    title: String,
    tasks: Vec<TaskObject>,
}

impl View for CollectionObject {
    type V = CollectionView;

    closed spec fn view(&self) -> CollectionView {
        CollectionView { title: self.title@, tasks: object_views(self.tasks@) }
    }
}

impl CollectionObject {
    /// A collection with the given title and tasks.
    pub fn new(title: String, tasks: Vec<TaskObject>) -> (res: Self)
        ensures
            res@ == (CollectionView { title: title@, tasks: object_views(tasks@) }),
    {
        CollectionObject { title, tasks }
    }

    /// The collection that holds the given data.
    pub fn from_collection_data(collection_data: CollectionData) -> (res: Self)
        ensures
            res@ == collection_data@,
    {
        let data = collection_data.tasks_data;
        let mut tasks: Vec<TaskObject> = Vec::new();
        let n = data.len();
        for i in 0..n
            invariant
                n == data.len(),
                object_views(tasks@) == data_views(data@.take(i as int)),
        {
            let task = TaskObject::from_task_data(data[i].clone());
            proof {
                assert(object_views(tasks@.push(task)) =~= object_views(tasks@).push(task@));
                assert(data@.take(i + 1) =~= data@.take(i as int).push(data@[i as int]));
                assert(data_views(data@.take(i + 1)) =~= data_views(data@.take(i as int)).push(
                    data@[i as int]@,
                ));
            }
            tasks.push(task);
        }
        proof {
            assert(data@.take(n as int) =~= data@);
        }
        CollectionObject { title: collection_data.title, tasks }
    }

    /// The plain data of the collection.
    pub fn to_collection_data(&self) -> (res: CollectionData)
        ensures
            res@ == self@,
    {
        let mut tasks_data: Vec<TaskData> = Vec::new();
        let n = self.tasks.len();
        for i in 0..n
            invariant
                n == self.tasks.len(),
                data_views(tasks_data@) == object_views(self.tasks@.take(i as int)),
        {
            let d = self.tasks[i].task_data();
            proof {
                assert(data_views(tasks_data@.push(d)) =~= data_views(tasks_data@).push(d@));
                assert(self.tasks@.take(i + 1) =~= self.tasks@.take(i as int).push(
                    self.tasks@[i as int],
                ));
                assert(object_views(self.tasks@.take(i + 1)) =~= object_views(
                    self.tasks@.take(i as int),
                ).push(self.tasks@[i as int]@));
            }
            tasks_data.push(d);
        }
        proof {
            assert(self.tasks@.take(n as int) =~= self.tasks@);
        }
        CollectionData { title: self.title.clone(), tasks_data }
    }

    /// Adds an open task with the given text at the end, unless the text is empty.
    /// Returns whether a task was added.
    pub fn add_task(&mut self, content: String) -> (added: bool)
        ensures
            added == (content@.len() > 0),
            final(self)@.title == old(self)@.title,
            final(self)@.tasks == (if added {
                old(self)@.tasks.push(TaskView { completed: false, content: content@ })
            } else {
                old(self)@.tasks
            }),
    {
        if content.as_str().is_empty() {
            return false;
        }
        let task = TaskObject::new(false, content);
        proof {
            assert(object_views(self.tasks@.push(task)) =~= object_views(self.tasks@).push(task@));
        }
        self.tasks.push(task);
        true
    }

    /// Removes every done task; the open ones keep their order.
    pub fn remove_done_tasks(&mut self)
        ensures
            final(self)@.title == old(self)@.title,
            final(self)@.tasks == open_tasks(old(self)@.tasks),
    {
        let ghost orig = object_views(self.tasks@);
        let ghost title = self.title@;
        let ghost mut k: int = 0;
        let mut position: usize = 0;
        while position < self.tasks.len()
            invariant
                self.title@ == title,
                position <= self.tasks.len(),
                position <= k <= orig.len(),
                self.tasks.len() - position == orig.len() - k,
                object_views(self.tasks@).take(position as int) == open_tasks(orig.take(k)),
                object_views(self.tasks@).skip(position as int) == orig.skip(k),
            decreases self.tasks.len() - position,
        {
            let ghost before = object_views(self.tasks@);
            proof {
                assert(before[position as int] == before.skip(position as int)[0]);
                assert(orig[k] == orig.skip(k)[0]);
                assert(orig.take(k + 1) =~= orig.take(k).push(orig[k]));
                assert(before.skip(position + 1) =~= before.skip(position as int).skip(1));
                assert(orig.skip(k + 1) =~= orig.skip(k).skip(1));
            }
            if self.tasks[position].is_completed() {
                let _removed = self.tasks.remove(position);
                proof {
                    let after = object_views(self.tasks@);
                    assert(after =~= before.remove(position as int));
                    assert(after.take(position as int) =~= before.take(position as int));
                    assert(after.skip(position as int) =~= orig.skip(k + 1));
                    k = k + 1;
                }
            } else {
                proof {
                    assert(before.take(position + 1) =~= before.take(position as int).push(
                        before[position as int],
                    ));
                    assert(before.skip(position + 1) =~= orig.skip(k + 1));
                    k = k + 1;
                }
                position = position + 1;
            }
        }
        proof {
            assert(object_views(self.tasks@).take(position as int) =~= object_views(self.tasks@));
            assert(orig.take(k) =~= orig);
        }
    }

    /// Marks the task at `index` done or open.
    pub fn set_task_completed(&mut self, index: usize, completed: bool)
        requires
            index < old(self)@.tasks.len(),
        ensures
            final(self)@.title == old(self)@.title,
            final(self)@.tasks == old(self)@.tasks.update(
                index as int,
                TaskView { completed, content: old(self)@.tasks[index as int].content },
            ),
    {
        self.tasks[index].set_completed(completed);
        proof {
            assert(object_views(self.tasks@) =~= old(self)@.tasks.update(
                index as int,
                TaskView { completed, content: old(self)@.tasks[index as int].content },
            ));
        }
    }

    /// The positions, in increasing order, of the tasks that pass the filter.
    pub fn visible_tasks(&self, filter: TaskFilter) -> (res: Vec<usize>)
        ensures
            res@ == visible_positions(self@.tasks, filter),
    {
        let ghost s = object_views(self.tasks@);
        let mut res: Vec<usize> = Vec::new();
        let n = self.tasks.len();
        for i in 0..n
            invariant
                n == self.tasks.len(),
                s == object_views(self.tasks@),
                res@ == positions_below(i as nat, s, filter),
        {
            proof {
                assert(index_seq((i + 1) as nat) =~= index_seq(i as nat).push(i));
            }
            if filter.accepts(&self.tasks[i]) {
                res.push(i);
            }
        }
        res
    }

    /// Whether the collection has any task.
    pub fn has_tasks(&self) -> (res: bool)
        ensures
            res == (self@.tasks.len() > 0),
    {
        self.tasks.len() > 0
    }

    /// The title.
    pub fn title(&self) -> (res: String)
        ensures
            res@ == self@.title,
    {
        self.title.clone()
    }

    /// Replaces the title.
    pub fn set_title(&mut self, title: String)
        ensures
            final(self)@ == (CollectionView { title: title@, tasks: old(self)@.tasks }),
    {
        self.title = title;
    }

    /// The tasks, in their order.
    pub fn tasks(&self) -> (res: &Vec<TaskObject>)
        ensures
            object_views(res@) == self@.tasks,
    {
        &self.tasks
    }
}

/// A sequence of open tasks keeps all of them when the done ones are removed.
proof fn lemma_open_tasks_of_open(s: Seq<TaskView>)
    requires
        forall|i: int| 0 <= i < s.len() ==> !(#[trigger] s[i]).completed,
    ensures
        open_tasks(s) == s,
    decreases s.len(),
{
    if s.len() > 0 {
        lemma_open_tasks_of_open(s.drop_last());
        assert(s.drop_last().push(s.last()) =~= s);
    }
}

/// Removing the done tasks leaves no done task, keeps every open one, and a second
/// removal changes nothing.
pub proof fn lemma_remove_done_tasks(s: Seq<TaskView>)
    ensures
        forall|i: int| 0 <= i < open_tasks(s).len() ==> !(#[trigger] open_tasks(s)[i]).completed,
        forall|i: int|
            0 <= i < s.len() && !(#[trigger] s[i]).completed ==> open_tasks(s).contains(s[i]),
        open_tasks(s).len() <= s.len(),
        open_tasks(open_tasks(s)) == open_tasks(s),
{
    broadcast use vstd::seq_lib::group_filter_ensures;

    lemma_open_tasks_of_open(open_tasks(s));
}

/// Facts on the positions below `n` that pass a filter: each is below `n`, and a
/// position is among them exactly when its task passes.
proof fn lemma_positions_below(n: nat, s: Seq<TaskView>, filter: TaskFilter)
    requires
        n <= s.len(),
        s.len() <= usize::MAX,
    ensures
        forall|j: int|
            0 <= j < positions_below(n, s, filter).len() ==> (#[trigger] positions_below(
                n,
                s,
                filter,
            )[j]) < n,
        forall|i: usize|
            i < n ==> (positions_below(n, s, filter).contains(i) <==> filter.admits(
                s[i as int],
            )),
        forall|a: int, b: int|
            0 <= a < b < positions_below(n, s, filter).len() ==> positions_below(n, s, filter)[a]
                < positions_below(n, s, filter)[b],
    decreases n,
{
    if n > 0 {
        let m = (n - 1) as nat;
        lemma_positions_below(m, s, filter);
        assert(index_seq(n) =~= index_seq(m).push(m as usize));
        let p = positions_below(m, s, filter);
        let q = positions_below(n, s, filter);
        assert forall|i: usize| i < n implies (q.contains(i) <==> filter.admits(s[i as int])) by {
            if filter.admits(s[m as int]) {
                assert(q == p.push(m as usize));
                if q.contains(i) {
                    let j = choose|j: int| 0 <= j < q.len() && q[j] == i;
                    if j < p.len() {
                        assert(p[j] == i);
                    }
                }
                if i < m && p.contains(i) {
                    let j = choose|j: int| 0 <= j < p.len() && p[j] == i;
                    assert(q[j] == i);
                }
                if i == m {
                    assert(q[p.len() as int] == i);
                }
            } else {
                assert(q == p);
                if i == m && p.contains(i) {
                    let j = choose|j: int| 0 <= j < p.len() && p[j] == i;
                    assert(p[j] < m);
                }
            }
        }
    }
}

/// The positions below `n` shown by the open filter and by the done filter add up to `n`,
/// and the filter for all tasks shows every one of them.
proof fn lemma_positions_below_count(n: nat, s: Seq<TaskView>)
    requires
        n <= s.len(),
    ensures
        positions_below(n, s, TaskFilter::Open).len() + positions_below(
            n,
            s,
            TaskFilter::Done,
        ).len() == n,
        positions_below(n, s, TaskFilter::All) == index_seq(n),
    decreases n,
{
    if n > 0 {
        let m = (n - 1) as nat;
        lemma_positions_below_count(m, s);
        assert(index_seq(n) =~= index_seq(m).push(m as usize));
    }
}

/// The filter for all tasks shows every position; each task is shown by exactly one of
/// the open and the done filters.
pub proof fn lemma_filters_partition(s: Seq<TaskView>)
    requires
        s.len() <= usize::MAX,
    ensures
        visible_positions(s, TaskFilter::All) == index_seq(s.len()),
        visible_positions(s, TaskFilter::Open).len() + visible_positions(
            s,
            TaskFilter::Done,
        ).len() == s.len(),
        forall|i: usize|
            i < s.len() ==> (visible_positions(s, TaskFilter::Open).contains(i) <==> !s[i as int].completed),
        forall|i: usize|
            i < s.len() ==> (visible_positions(s, TaskFilter::Done).contains(i) <==> s[i as int].completed),
{
    lemma_positions_below_count(s.len(), s);
    lemma_positions_below(s.len(), s, TaskFilter::Open);
    lemma_positions_below(s.len(), s, TaskFilter::Done);
}

/// After the done tasks are removed, the done filter shows nothing and the open filter
/// shows every remaining task.
pub proof fn lemma_nothing_done_after_removal(s: Seq<TaskView>)
    requires
        s.len() <= usize::MAX,
    ensures
        visible_positions(open_tasks(s), TaskFilter::Done).len() == 0,
        visible_positions(open_tasks(s), TaskFilter::Open) == index_seq(open_tasks(s).len()),
{
    let t = open_tasks(s);
    lemma_remove_done_tasks(s);
    lemma_positions_below_count(t.len(), t);
    lemma_positions_below(t.len(), t, TaskFilter::Done);
    let d = visible_positions(t, TaskFilter::Done);
    if d.len() > 0 {
        assert(d[0] < t.len());
        assert(d.contains(d[0]));
    }
    assert(positions_below(t.len(), t, TaskFilter::Open) =~= positions_below(t.len(), t, TaskFilter::All)) by {
        lemma_open_positions_all(t.len(), t);
    }
}

/// Where no task below `n` is done, the open filter shows the same positions as the
/// filter for all tasks.
proof fn lemma_open_positions_all(n: nat, s: Seq<TaskView>)
    requires
        n <= s.len(),
        forall|i: int| 0 <= i < s.len() ==> !(#[trigger] s[i]).completed,
    ensures
        positions_below(n, s, TaskFilter::Open) == positions_below(n, s, TaskFilter::All),
    decreases n,
{
    if n > 0 {
        let m = (n - 1) as nat;
        lemma_open_positions_all(m, s);
        assert(index_seq(n) =~= index_seq(m).push(m as usize));
    }
}

/// The positions below `n` depend only on the tasks below `n`.
pub proof fn lemma_positions_below_prefix(n: nat, s1: Seq<TaskView>, s2: Seq<TaskView>, filter: TaskFilter)
    requires
        n <= s1.len(),
        n <= s2.len(),
        forall|i: int| 0 <= i < n ==> s1[i] == s2[i],
    ensures
        positions_below(n, s1, filter) == positions_below(n, s2, filter),
    decreases n,
{
    if n > 0 {
        let m = (n - 1) as nat;
        lemma_positions_below_prefix(m, s1, s2, filter);
        assert(index_seq(n) =~= index_seq(m).push(m as usize));
    }
}

/// A task added at the end is shown last by every filter that admits it, and the
/// positions of the earlier tasks do not change.
pub proof fn lemma_push_visible(s: Seq<TaskView>, t: TaskView, filter: TaskFilter)
    requires
        s.len() < usize::MAX,
    ensures
        visible_positions(s.push(t), filter) == (if filter.admits(t) {
            visible_positions(s, filter).push(s.len() as usize)
        } else {
            visible_positions(s, filter)
        }),
{
    let n = s.len();
    lemma_positions_below_prefix(n, s.push(t), s, filter);
    assert(index_seq(n + 1) =~= index_seq(n).push(n as usize));
}

/// The models of task objects are taken one by one, in order.
pub proof fn lemma_object_views(s: Seq<TaskObject>)
    ensures
        object_views(s).len() == s.len(),
        forall|i: int| 0 <= i < s.len() ==> #[trigger] object_views(s)[i] == s[i]@,
{
}

/// The models of task data are taken one by one, in order.
pub proof fn lemma_data_views(s: Seq<TaskData>)
    ensures
        data_views(s).len() == s.len(),
        forall|i: int| 0 <= i < s.len() ==> #[trigger] data_views(s)[i] == s[i]@,
{
}

/// Removing the done tasks of nothing gives nothing; a task added at the end is kept at
/// the end exactly when it is open, and a task added at the front is kept at the front
/// exactly when it is open. These steps fix the result for every list: the open tasks
/// in their original order.
pub proof fn lemma_open_tasks_steps(s: Seq<TaskView>, t: TaskView)
    ensures
        open_tasks(Seq::<TaskView>::empty()) == Seq::<TaskView>::empty(),
        open_tasks(s.push(t)) == (if t.completed {
            open_tasks(s)
        } else {
            open_tasks(s).push(t)
        }),
        open_tasks(seq![t] + s) == (if t.completed {
            open_tasks(s)
        } else {
            seq![t] + open_tasks(s)
        }),
{
    reveal(Seq::filter);
    s.lemma_filter_prepend(t, |x: TaskView| !x.completed);
    assert(seq![t] + s =~= s.insert(0, t));
}

/// The positions a filter shows are exactly those below the length whose task passes,
/// each once, in increasing order.
pub proof fn lemma_visible_positions(s: Seq<TaskView>, filter: TaskFilter)
    requires
        s.len() <= usize::MAX,
    ensures
        forall|j: int|
            0 <= j < visible_positions(s, filter).len() ==> (#[trigger] visible_positions(
                s,
                filter,
            )[j]) < s.len(),
        forall|i: usize|
            i < s.len() ==> (visible_positions(s, filter).contains(i) <==> filter.admits(
                s[i as int],
            )),
        forall|a: int, b: int|
            0 <= a < b < visible_positions(s, filter).len() ==> visible_positions(s, filter)[a]
                < visible_positions(s, filter)[b],
{
    lemma_positions_below(s.len(), s, filter);
}

} // verus!
