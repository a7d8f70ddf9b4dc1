use todo::{CollectionData, CollectionObject, StackPage, TaskData, TaskFilter, TaskObject, Window};

fn data(completed: bool, content: &str) -> TaskData {
    TaskData { completed, content: content.to_string() }
}

fn contents(tasks: &Vec<TaskObject>) -> Vec<(bool, String)> {
    tasks.iter().map(|t| (t.is_completed(), t.task_data().content)).collect()
}

fn sample_collection() -> CollectionObject {
    CollectionObject::from_collection_data(CollectionData {
        title: "Home".to_string(),
        tasks_data: vec![data(false, "a"), data(true, "b"), data(true, "c"), data(false, "d"), data(true, "e")],
    })
}

#[test]
fn filter_from_setting_names() {
    assert_eq!(TaskFilter::from_setting("All"), TaskFilter::All);
    assert_eq!(TaskFilter::from_setting("Open"), TaskFilter::Open);
    assert_eq!(TaskFilter::from_setting("Done"), TaskFilter::Done);
}

#[test]
fn filter_names_only_three_settings() {
    assert!(TaskFilter::names_filter("All"));
    assert!(TaskFilter::names_filter("Open"));
    assert!(TaskFilter::names_filter("Done"));
    assert!(!TaskFilter::names_filter("all"));
    assert!(!TaskFilter::names_filter(""));
    assert!(!TaskFilter::names_filter("Done "));
}

#[test]
fn filter_accepts_by_state() {
    let open = TaskObject::new(false, "x".to_string());
    let done = TaskObject::new(true, "y".to_string());
    assert!(TaskFilter::All.accepts(&open));
    assert!(TaskFilter::All.accepts(&done));
    assert!(TaskFilter::Open.accepts(&open));
    assert!(!TaskFilter::Open.accepts(&done));
    assert!(!TaskFilter::Done.accepts(&open));
    assert!(TaskFilter::Done.accepts(&done));
}

#[test]
fn task_object_round_trip() {
    let t = TaskObject::from_task_data(data(true, "buy milk"));
    assert!(t.is_completed());
    let d = t.task_data();
    assert!(d.completed);
    assert_eq!(d.content, "buy milk");
}

#[test]
fn task_object_content_accessors() {
    let mut t = TaskObject::new(true, "old text".to_string());
    assert!(t.completed());
    assert_eq!(t.content(), "old text");
    t.set_content("new text".to_string());
    assert_eq!(t.content(), "new text");
    assert!(t.completed());
}

#[test]
fn task_object_set_completed() {
    let mut t = TaskObject::new(false, "walk".to_string());
    assert!(!t.is_completed());
    t.set_completed(true);
    assert!(t.is_completed());
    assert_eq!(t.task_data().content, "walk");
}

#[test]
fn task_data_clone_and_default() {
    let d = data(true, "c");
    let e = d.clone();
    assert!(e.completed);
    assert_eq!(e.content, "c");
    let z = TaskData::default();
    assert!(!z.completed);
    assert_eq!(z.content, "");
}

#[test]
fn collection_round_trip() {
    let c = sample_collection();
    let back = c.to_collection_data();
    assert_eq!(back.title, "Home");
    let got: Vec<(bool, String)> = back.tasks_data.iter().map(|t| (t.completed, t.content.clone())).collect();
    assert_eq!(
        got,
        vec![
            (false, "a".to_string()),
            (true, "b".to_string()),
            (true, "c".to_string()),
            (false, "d".to_string()),
            (true, "e".to_string())
        ]
    );
}

#[test]
fn collection_add_task() {
    let mut c = CollectionObject::new("List".to_string(), Vec::new());
    assert!(!c.has_tasks());
    assert!(!c.add_task(String::new()));
    assert!(!c.has_tasks());
    assert!(c.add_task("first".to_string()));
    assert!(c.add_task("second".to_string()));
    assert_eq!(contents(c.tasks()), vec![(false, "first".to_string()), (false, "second".to_string())]);
    assert_eq!(c.title(), "List");
}

#[test]
fn collection_remove_done_tasks_keeps_order() {
    let mut c = sample_collection();
    c.remove_done_tasks();
    assert_eq!(contents(c.tasks()), vec![(false, "a".to_string()), (false, "d".to_string())]);
    c.remove_done_tasks();
    assert_eq!(contents(c.tasks()), vec![(false, "a".to_string()), (false, "d".to_string())]);
}

#[test]
fn collection_remove_all_done() {
    let mut c = CollectionObject::from_collection_data(CollectionData {
        title: "t".to_string(),
        tasks_data: vec![data(true, "a"), data(true, "b")],
    });
    c.remove_done_tasks();
    assert!(!c.has_tasks());
}

#[test]
fn collection_visible_tasks() {
    let c = sample_collection();
    assert_eq!(c.visible_tasks(TaskFilter::All), vec![0, 1, 2, 3, 4]);
    assert_eq!(c.visible_tasks(TaskFilter::Open), vec![0, 3]);
    assert_eq!(c.visible_tasks(TaskFilter::Done), vec![1, 2, 4]);
}

#[test]
fn collection_set_task_completed_and_title() {
    let mut c = sample_collection();
    c.set_task_completed(0, true);
    c.set_task_completed(1, false);
    assert_eq!(c.visible_tasks(TaskFilter::Open), vec![1, 3]);
    c.set_title("Work".to_string());
    assert_eq!(c.title(), "Work");
    assert_eq!(c.tasks().len(), 5);
}

#[test]
fn window_starts_empty() {
    let w = Window::new(TaskFilter::Open);
    assert_eq!(w.filter(), TaskFilter::Open);
    assert_eq!(w.collections().len(), 0);
    assert_eq!(w.select_collection_row(), None);
    assert_eq!(w.stack_page(), StackPage::Placeholder);
    assert_eq!(w.stack_page().name(), "placeholder");
    assert!(w.backup_data().is_empty());
}

#[test]
fn window_empty_task_without_collection() {
    let mut w = Window::new(TaskFilter::All);
    assert!(!w.new_task(String::new()));
    assert_eq!(w.collections().len(), 0);
}

#[test]
fn window_restore_shows_first_collection() {
    let mut w = Window::new(TaskFilter::All);
    w.restore_data(vec![
        CollectionData { title: "One".to_string(), tasks_data: vec![data(false, "x")] },
        CollectionData { title: "Two".to_string(), tasks_data: vec![] },
    ]);
    assert_eq!(w.select_collection_row(), Some(0));
    assert_eq!(w.current_collection().title(), "One");
    assert_eq!(w.stack_page(), StackPage::Main);
    assert_eq!(w.stack_page().name(), "main");
    assert!(w.task_list_visible());
    w.set_current_collection(1);
    assert_eq!(w.select_collection_row(), Some(1));
    assert!(!w.task_list_visible());
}

#[test]
fn window_restore_nothing_keeps_state() {
    let mut w = Window::new(TaskFilter::All);
    w.restore_data(Vec::new());
    assert_eq!(w.select_collection_row(), None);
    assert_eq!(w.stack_page(), StackPage::Placeholder);
}

#[test]
fn window_restore_appends_after_existing() {
    let mut w = Window::new(TaskFilter::All);
    w.restore_data(vec![CollectionData { title: "A".to_string(), tasks_data: vec![] }]);
    w.restore_data(vec![CollectionData { title: "B".to_string(), tasks_data: vec![] }]);
    assert_eq!(w.collections().len(), 2);
    assert_eq!(w.select_collection_row(), Some(1));
    assert_eq!(w.current_collection().title(), "B");
}

#[test]
fn window_backup_round_trip() {
    let mut w = Window::new(TaskFilter::All);
    let backup = vec![
        CollectionData { title: "One".to_string(), tasks_data: vec![data(false, "x"), data(true, "y")] },
        CollectionData { title: "Two".to_string(), tasks_data: vec![data(true, "z")] },
    ];
    w.restore_data(backup);
    let saved = w.backup_data();
    assert_eq!(saved.len(), 2);
    assert_eq!(saved[0].title, "One");
    assert_eq!(saved[0].tasks_data.len(), 2);
    assert_eq!(saved[0].tasks_data[0].content, "x");
    assert!(!saved[0].tasks_data[0].completed);
    assert_eq!(saved[0].tasks_data[1].content, "y");
    assert!(saved[0].tasks_data[1].completed);
    assert_eq!(saved[1].title, "Two");
    assert_eq!(saved[1].tasks_data[0].content, "z");
    assert!(saved[1].tasks_data[0].completed);
}

#[test]
fn window_new_collection_is_shown() {
    let mut w = Window::new(TaskFilter::All);
    w.new_collection("Groceries".to_string());
    assert_eq!(w.collections().len(), 1);
    assert_eq!(w.select_collection_row(), Some(0));
    assert_eq!(w.current_collection().title(), "Groceries");
    assert!(!w.task_list_visible());
    assert_eq!(w.stack_page(), StackPage::Main);
    assert!(w.new_task("milk".to_string()));
    w.new_collection("Work".to_string());
    assert_eq!(w.collections().len(), 2);
    assert_eq!(w.select_collection_row(), Some(1));
    assert_eq!(w.current_collection().title(), "Work");
    assert!(w.tasks().is_empty());
    w.set_current_collection(0);
    assert_eq!(contents(w.tasks()), vec![(false, "milk".to_string())]);
}

#[test]
fn window_new_collection_after_restore() {
    let mut w = Window::new(TaskFilter::Open);
    w.restore_data(vec![CollectionData { title: "A".to_string(), tasks_data: vec![data(false, "a")] }]);
    w.new_collection("B".to_string());
    let saved = w.backup_data();
    assert_eq!(saved.len(), 2);
    assert_eq!(saved[0].title, "A");
    assert_eq!(saved[1].title, "B");
    assert!(saved[1].tasks_data.is_empty());
}

#[test]
fn window_new_task_and_filters() {
    let mut w = Window::new(TaskFilter::All);
    w.restore_data(vec![CollectionData { title: "L".to_string(), tasks_data: vec![data(true, "old")] }]);
    assert!(!w.new_task(String::new()));
    assert_eq!(w.tasks().len(), 1);
    assert!(w.new_task("new".to_string()));
    assert_eq!(contents(w.tasks()), vec![(true, "old".to_string()), (false, "new".to_string())]);
    assert_eq!(w.visible_tasks(), vec![0, 1]);
    w.set_filter(TaskFilter::Open);
    assert_eq!(w.visible_tasks(), vec![1]);
    w.set_filter(TaskFilter::Done);
    assert_eq!(w.visible_tasks(), vec![0]);
}

#[test]
fn window_remove_done_tasks_touches_current_only() {
    let mut w = Window::new(TaskFilter::All);
    w.restore_data(vec![
        CollectionData { title: "A".to_string(), tasks_data: vec![data(true, "a1"), data(false, "a2")] },
        CollectionData { title: "B".to_string(), tasks_data: vec![data(true, "b1")] },
    ]);
    w.remove_done_tasks();
    assert_eq!(contents(w.tasks()), vec![(false, "a2".to_string())]);
    w.set_current_collection(1);
    assert_eq!(contents(w.tasks()), vec![(true, "b1".to_string())]);
}

#[test]
fn window_set_task_completed() {
    let mut w = Window::new(TaskFilter::Done);
    w.restore_data(vec![CollectionData { title: "A".to_string(), tasks_data: vec![data(false, "a")] }]);
    assert!(w.visible_tasks().is_empty());
    w.set_task_completed(0, true);
    assert_eq!(w.visible_tasks(), vec![0]);
    w.remove_done_tasks();
    assert!(!w.task_list_visible());
}
