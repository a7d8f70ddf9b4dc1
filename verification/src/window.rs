//! The state of a to-do window: its collections, the one on show, and the filter.

use vstd::prelude::*;

use crate::collection::{
    lemma_push_visible, visible_positions, CollectionData, CollectionObject, CollectionView,
};
use crate::filter::TaskFilter;
use crate::task::{TaskObject, TaskView};

verus! {

/// The models of a sequence of collection objects.
pub open spec fn collection_views(s: Seq<CollectionObject>) -> Seq<CollectionView> {
    s.map_values(|c: CollectionObject| c@)
}

/// The models of a sequence of collection data.
pub open spec fn backup_views(s: Seq<CollectionData>) -> Seq<CollectionView> {
    s.map_values(|c: CollectionData| c@)
}

/// The mathematical model of a window.
#[verifier::ext_equal]
pub struct WindowView {
    pub collections: Seq<CollectionView>,
    pub current: Option<usize>,
    pub filter: TaskFilter,
}

impl WindowView {
    /// The collection on show is one of the window's collections.
    pub open spec fn valid(self) -> bool {
        self.current matches Some(i) ==> i < self.collections.len()
    }

    /// Whether a collection is on show.
    pub open spec fn has_current(self) -> bool {
        self.current is Some
    }

    /// The collection on show.
    pub open spec fn current_collection(self) -> CollectionView {
        self.collections[self.current->0 as int]
    }

    /// The tasks of the collection on show.
    pub open spec fn current_tasks(self) -> Seq<TaskView> {
        self.current_collection().tasks
    }

    /// The same window with the tasks of the collection on show replaced.
    pub open spec fn with_current_tasks(self, tasks: Seq<TaskView>) -> WindowView {
        WindowView {
            collections: self.collections.update(
                self.current->0 as int,
                CollectionView { title: self.current_collection().title, tasks },
            ),
            current: self.current,
            filter: self.filter,
        }
    }
}

/// The window after the collections of a backup were added to it: they follow the
/// collections it had, and the first of them is on show, if there is one.
pub open spec fn restored(w: WindowView, data: Seq<CollectionView>) -> WindowView {
    WindowView {
        collections: w.collections + data,
        current: if data.len() > 0 {
            Some(w.collections.len() as usize)
        } else {
            w.current
        },
        filter: w.filter,
    }
}

/// What a window saves when it closes: its collections, in their order.
pub open spec fn backed_up(w: WindowView) -> Seq<CollectionView> {
    w.collections
}

/// The page of the window's stack that is on show.
#[derive(Clone, Copy, Debug, PartialEq, Eq, Structural)]
pub enum StackPage {
    /// The collections and their tasks.
    Main,
    /// The hint shown while there is no collection.
    Placeholder,
}

impl StackPage {
    /// The name of the page in the window's stack.
    pub fn name(&self) -> (res: &'static str)
        ensures
            res@ == (match self {
                StackPage::Main => "main"@,
                StackPage::Placeholder => "placeholder"@,
            }),
    {
        match self {
            StackPage::Main => "main",
            StackPage::Placeholder => "placeholder",
        }
    }
}

/// The state of a to-do window.
pub struct Window {
    collections: Vec<CollectionObject>,
    current: Option<usize>,
    filter: TaskFilter,
}

impl View for Window {
    type V = WindowView;

    closed spec fn view(&self) -> WindowView {
        WindowView {
            collections: collection_views(self.collections@),
            current: self.current,
            filter: self.filter,
        }
    }
}

impl Window {
    #[verifier::type_invariant]
    spec fn current_in_range(self) -> bool {
        self.current matches Some(i) ==> i < self.collections.len()
    }

    /// Takes the window apart; the position on show stays within the collections.
    fn into_parts(self) -> (res: (Vec<CollectionObject>, Option<usize>, TaskFilter))
        ensures
            collection_views(res.0@) == self@.collections,
            res.1 == self@.current,
            res.2 == self@.filter,
            res.1 matches Some(i) ==> i < res.0.len(),
    {
        proof {
            use_type_invariant(&self);
        }
        let Window { collections, current, filter } = self;
        (collections, current, filter)
    }

    /// Moves the window's state out, leaving an empty window in its place.
    fn take(&mut self) -> (res: Window)
        ensures
            res@ == old(self)@,
    {
        let mut whole = Window::new(self.filter);
        std::mem::swap(self, &mut whole);
        whole
    }

    /// A window with no collection, showing tasks through the given filter.
    pub fn new(filter: TaskFilter) -> (res: Self)
        ensures
            res@ == (WindowView { collections: Seq::empty(), current: None, filter }),
    {
        Window { collections: Vec::new(), current: None, filter }
    }

    /// The filter through which tasks are shown.
    pub fn filter(&self) -> (res: TaskFilter)
        ensures
            res == self@.filter,
    {
        self.filter
    }

    /// Shows the tasks of the collection on show through another filter.
    pub fn set_filter(&mut self, filter: TaskFilter)
        requires
            old(self)@.has_current(),
        ensures
            final(self)@ == (WindowView { filter, ..old(self)@ }),
    {
        proof {
            use_type_invariant(&*self);
        }
        self.filter = filter;
    }

    /// Adds an empty collection with the given title after the others, and shows it.
    pub fn new_collection(&mut self, title: String)
        requires
            old(self)@.collections.len() < usize::MAX,
        ensures
            final(self)@ == (WindowView {
                collections: old(self)@.collections.push(
                    CollectionView { title: title@, tasks: Seq::empty() },
                ),
                current: Some(old(self)@.collections.len() as usize),
                filter: old(self)@.filter,
            }),
    {
        let (mut collections, _current, filter) = self.take().into_parts();
        let index = collections.len();
        let collection = CollectionObject::new(title, Vec::new());
        proof {
            assert(crate::collection::object_views(Seq::<TaskObject>::empty()) =~= Seq::empty());
            assert(collection_views(collections@.push(collection)) =~= collection_views(
                collections@,
            ).push(collection@));
        }
        collections.push(collection);
        *self = Window { collections, current: Some(index), filter };
    }

    /// Adds the collections of a backup after the window's own, and shows the
    /// first of them, if there is one.
    pub fn restore_data(&mut self, backup_data: Vec<CollectionData>)
        ensures
            final(self)@ == restored(old(self)@, backup_views(backup_data@)),
    {
        let (mut collections, current, filter) = self.take().into_parts();
        let ghost orig = backup_data@;
        let ghost start = collection_views(collections@);
        let first = collections.len();
        let mut data = backup_data;
        let ghost mut taken: int = 0;
        while data.len() > 0
            invariant
                0 <= taken <= orig.len(),
                data@ == orig.skip(taken),
                first <= collections.len(),
                collection_views(collections@) == start + backup_views(orig.take(taken)),
                current matches Some(i) ==> i < first,
                start.len() == first,
            decreases data.len(),
        {
            let ghost before = collections@;
            let c = data.remove(0);
            let obj = CollectionObject::from_collection_data(c);
            proof {
                assert(orig[taken] == orig.skip(taken)[0]);
                assert(data@ =~= orig.skip(taken + 1));
                assert(orig.take(taken + 1) =~= orig.take(taken).push(orig[taken]));
                assert(backup_views(orig.take(taken + 1)) =~= backup_views(orig.take(taken)).push(
                    orig[taken]@,
                ));
                assert(collection_views(before.push(obj)) =~= collection_views(before).push(obj@));
                taken = taken + 1;
            }
            collections.push(obj);
        }
        proof {
            assert(orig.take(taken) =~= orig);
        }
        let current = if first < collections.len() {
            Some(first)
        } else {
            current
        };
        *self = Window { collections, current, filter };
    }

    /// The data of every collection, in their order: what the window saves when it closes.
    pub fn backup_data(&self) -> (res: Vec<CollectionData>)
        ensures
            backup_views(res@) == backed_up(self@),
    {
        let mut res: Vec<CollectionData> = Vec::new();
        let n = self.collections.len();
        for i in 0..n
            invariant
                n == self.collections.len(),
                backup_views(res@) == collection_views(self.collections@.take(i as int)),
        {
            let d = self.collections[i].to_collection_data();
            proof {
                assert(backup_views(res@.push(d)) =~= backup_views(res@).push(d@));
                assert(self.collections@.take(i + 1) =~= self.collections@.take(i as int).push(
                    self.collections@[i as int],
                ));
                assert(collection_views(self.collections@.take(i + 1)) =~= collection_views(
                    self.collections@.take(i as int),
                ).push(self.collections@[i as int]@));
            }
            res.push(d);
        }
        proof {
            assert(self.collections@.take(n as int) =~= self.collections@);
        }
        res
    }

    /// Shows the collection at `index`.
    pub fn set_current_collection(&mut self, index: usize)
        requires
            index < old(self)@.collections.len(),
        ensures
            final(self)@ == (WindowView { current: Some(index), ..old(self)@ }),
    {
        self.current = Some(index);
    }

    /// The collections, in their order.
    pub fn collections(&self) -> (res: &Vec<CollectionObject>)
        ensures
            collection_views(res@) == self@.collections,
    {
        &self.collections
    }

    /// The collection on show.
    pub fn current_collection(&self) -> (res: &CollectionObject)
        requires
            self@.has_current(),
        ensures
            res@ == self@.current_collection(),
    {
        proof {
            use_type_invariant(self);
        }
        let i = self.current.unwrap();
        &self.collections[i]
    }

    /// The tasks of the collection on show.
    pub fn tasks(&self) -> (res: &Vec<TaskObject>)
        requires
            self@.has_current(),
        ensures
            crate::collection::object_views(res@) == self@.current_tasks(),
    {
        self.current_collection().tasks()
    }

    /// The position of the collection on show among the collections: the row to select.
    pub fn select_collection_row(&self) -> (res: Option<usize>)
        ensures
            res == self@.current,
            res matches Some(i) ==> i < self@.collections.len(),
    {
        proof {
            use_type_invariant(self);
        }
        self.current
    }

    /// The page of the stack to show: the main page while there is a collection,
    /// else the placeholder.
    pub fn stack_page(&self) -> (res: StackPage)
        ensures
            res == (if self@.collections.len() > 0 {
                StackPage::Main
            } else {
                StackPage::Placeholder
            }),
    {
        if self.collections.len() > 0 {
            StackPage::Main
        } else {
            StackPage::Placeholder
        }
    }

    /// Whether the task list is shown: only while the collection on show has a task.
    pub fn task_list_visible(&self) -> (res: bool)
        requires
            self@.has_current(),
        ensures
            res == (self@.current_tasks().len() > 0),
    {
        self.current_collection().has_tasks()
    }

    /// The positions, in increasing order, of the tasks of the collection on show
    /// that pass the window's filter: the rows of the task list.
    pub fn visible_tasks(&self) -> (res: Vec<usize>)
        requires
            self@.has_current(),
        ensures
            res@ == visible_positions(self@.current_tasks(), self@.filter),
    {
        self.current_collection().visible_tasks(self.filter)
    }

    /// Adds an open task with the given text to the collection on show, unless the
    /// text is empty. Returns whether a task was added (and the entry is to be cleared).
    pub fn new_task(&mut self, content: String) -> (added: bool)
        requires
            content@.len() > 0 ==> old(self)@.has_current(),
        ensures
            added == (content@.len() > 0),
            final(self)@ == (if added {
                old(self)@.with_current_tasks(
                    old(self)@.current_tasks().push(TaskView { completed: false, content: content@ }),
                )
            } else {
                old(self)@
            }),
    {
        proof {
            use_type_invariant(&*self);
        }
        if content.as_str().is_empty() {
            return false;
        }
        let (mut collections, current, filter) = self.take().into_parts();
        let i = current.unwrap();
        let added = collections[i].add_task(content);
        *self = Window { collections, current, filter };
        proof {
            assert(collection_views(self.collections@) =~= old(self)@.with_current_tasks(
                old(self)@.current_tasks().push(TaskView { completed: false, content: content@ }),
            ).collections);
        }
        added
    }

    /// Removes every done task of the collection on show.
    pub fn remove_done_tasks(&mut self)
        requires
            old(self)@.has_current(),
        ensures
            final(self)@ == old(self)@.with_current_tasks(
                crate::collection::open_tasks(old(self)@.current_tasks()),
            ),
    {
        proof {
            use_type_invariant(&*self);
        }
        let (mut collections, current, filter) = self.take().into_parts();
        let i = current.unwrap();
        collections[i].remove_done_tasks();
        *self = Window { collections, current, filter };
        proof {
            assert(collection_views(self.collections@) =~= old(self)@.with_current_tasks(
                crate::collection::open_tasks(old(self)@.current_tasks()),
            ).collections);
        }
    }

    /// Marks the task at `index` of the collection on show done or open.
    pub fn set_task_completed(&mut self, index: usize, completed: bool)
        requires
            old(self)@.has_current(),
            index < old(self)@.current_tasks().len(),
        ensures
            final(self)@ == old(self)@.with_current_tasks(
                old(self)@.current_tasks().update(
                    index as int,
                    TaskView { completed, content: old(self)@.current_tasks()[index as int].content },
                ),
            ),
    {
        proof {
            use_type_invariant(&*self);
        }
        let (mut collections, current, filter) = self.take().into_parts();
        let i = current.unwrap();
        collections[i].set_task_completed(index, completed);
        *self = Window { collections, current, filter };
        proof {
            assert(collection_views(self.collections@) =~= old(self)@.with_current_tasks(
                old(self)@.current_tasks().update(
                    index as int,
                    TaskView { completed, content: old(self)@.current_tasks()[index as int].content },
                ),
            ).collections);
        }
    }
}

/// Restoring a backup into a window puts its collections after the window's own and
/// keeps the window valid; into an empty window, saving again gives the backup back,
/// and the first collection of the backup is on show.
pub proof fn lemma_restore_then_backup(w: WindowView, data: Seq<CollectionView>)
    requires
        w.valid(),
        w.collections.len() <= usize::MAX,
    ensures
        restored(w, data).valid(),
        backed_up(restored(w, data)) == backed_up(w) + data,
        w.collections.len() == 0 ==> backed_up(restored(w, data)) == data,
        w.collections.len() == 0 && data.len() > 0 ==> restored(w, data).current_collection()
            == data[0],
        data.len() == 0 ==> restored(w, data) == w,
        data.len() > 0 ==> restored(w, data).current == Some(w.collections.len() as usize),
        data.len() > 0 ==> restored(w, data).current_collection() == data[0],
        restored(w, data).filter == w.filter,
        restored(w, data).collections.len() == w.collections.len() + data.len(),
        forall|i: int|
            0 <= i < w.collections.len() ==> #[trigger] restored(w, data).collections[i]
                == w.collections[i],
        forall|i: int|
            0 <= i < data.len() ==> restored(w, data).collections[w.collections.len() + i]
                == #[trigger] data[i],
{
    assert(w.collections.len() == 0 ==> w.collections + data =~= data);
    assert(data.len() == 0 ==> w.collections + data =~= w.collections);
}

/// A task added to the collection on show becomes its last task and is open: the
/// filters for all and for open tasks show it last, the done filter shows what it
/// showed before, and no other collection changes.
pub proof fn lemma_new_task_shown(w: WindowView, content: Seq<char>)
    requires
        w.valid(),
        w.has_current(),
        w.current_tasks().len() < usize::MAX,
    ensures
        ({
            let t = TaskView { completed: false, content };
            let after = w.with_current_tasks(w.current_tasks().push(t));
            let n = w.current_tasks().len() as usize;
            &&& after.valid()
            &&& after.current == w.current
            &&& after.filter == w.filter
            &&& after.collections.len() == w.collections.len()
            &&& forall|j: int|
                0 <= j < w.collections.len() && j != w.current->0 ==> after.collections[j]
                    == w.collections[j]
            &&& after.current_collection().title == w.current_collection().title
            &&& after.current_tasks().last() == t
            &&& visible_positions(after.current_tasks(), TaskFilter::All) == visible_positions(
                w.current_tasks(),
                TaskFilter::All,
            ).push(n)
            &&& visible_positions(after.current_tasks(), TaskFilter::Open) == visible_positions(
                w.current_tasks(),
                TaskFilter::Open,
            ).push(n)
            &&& visible_positions(after.current_tasks(), TaskFilter::Done) == visible_positions(
                w.current_tasks(),
                TaskFilter::Done,
            )
        }),
{
    let t = TaskView { completed: false, content };
    lemma_push_visible(w.current_tasks(), t, TaskFilter::All);
    lemma_push_visible(w.current_tasks(), t, TaskFilter::Open);
    lemma_push_visible(w.current_tasks(), t, TaskFilter::Done);
}

/// A new collection is on show, holds no task and has the title typed; the window stays
/// valid and the collections before it do not change.
pub proof fn lemma_new_collection_shown(w: WindowView, title: Seq<char>)
    requires
        w.valid(),
        w.collections.len() < usize::MAX,
    ensures
        ({
            let after = WindowView {
                collections: w.collections.push(CollectionView { title, tasks: Seq::empty() }),
                current: Some(w.collections.len() as usize),
                filter: w.filter,
            };
            &&& after.valid()
            &&& after.has_current()
            &&& after.current_collection().title == title
            &&& after.current_tasks().len() == 0
            &&& after.collections.len() == w.collections.len() + 1
            &&& forall|j: int| 0 <= j < w.collections.len() ==> after.collections[j] == w.collections[j]
            &&& visible_positions(after.current_tasks(), after.filter).len() == 0
        }),
{
    assert(crate::collection::index_seq(0) =~= Seq::<usize>::empty());
    reveal_with_fuel(Seq::filter, 1);
}

/// The models of collection objects are taken one by one, in order.
pub proof fn lemma_collection_views(s: Seq<CollectionObject>)
    ensures
        collection_views(s).len() == s.len(),
        forall|i: int| 0 <= i < s.len() ==> #[trigger] collection_views(s)[i] == s[i]@,
{
}

/// The models of a backup are taken one by one, in order.
pub proof fn lemma_backup_views(s: Seq<CollectionData>)
    ensures
        backup_views(s).len() == s.len(),
        forall|i: int| 0 <= i < s.len() ==> #[trigger] backup_views(s)[i] == s[i]@,
{
}

/// What a window saves holds each of its collections once, in the window's order.
pub proof fn lemma_backed_up(w: WindowView)
    ensures
        backed_up(w).len() == w.collections.len(),
        forall|i: int| 0 <= i < w.collections.len() ==> #[trigger] backed_up(w)[i] == w.collections[i],
{
}

/// The collection on show is the one at the position on show, and replacing its tasks
/// changes those tasks alone: its title, the other collections, the position on show
/// and the filter stay.
pub proof fn lemma_current_collection(w: WindowView, tasks: Seq<TaskView>)
    requires
        w.valid(),
        w.has_current(),
    ensures
        w.current_collection() == w.collections[w.current->0 as int],
        w.current_tasks() == w.collections[w.current->0 as int].tasks,
        w.with_current_tasks(tasks).valid(),
        w.with_current_tasks(tasks).current == w.current,
        w.with_current_tasks(tasks).filter == w.filter,
        w.with_current_tasks(tasks).collections.len() == w.collections.len(),
        w.with_current_tasks(tasks).current_tasks() == tasks,
        w.with_current_tasks(tasks).current_collection().title == w.current_collection().title,
        forall|j: int|
            0 <= j < w.collections.len() && j != w.current->0 ==> #[trigger] w.with_current_tasks(
                tasks,
            ).collections[j] == w.collections[j],
{
}

} // verus!
