# todo

A to-do list organised in collections: the state behind a GTK window, verified with Verus.

- `src/` is the library. `task` holds a task (done or open, and its text);
  `filter` the three ways the task list is filtered (all, open, done) and the
  setting names that select them; `collection` a titled list of tasks, with
  adding a task, removing the done ones and the positions a filter shows;
  `window` the whole window state: the collections, the one on show and the
  filter, with restoring from and saving to a backup, adding a collection,
  and the page the window shows. Every function carries a contract over a
  mathematical model (`TaskView`, `CollectionView`, `WindowView`), and the
  laws that relate the operations are proof functions beside them.
- `tests/` runs the library on concrete values.
- `app/` is the GTK/libadwaita program around it: widgets, settings, and the
  JSON file in the user's data directory where the collections are kept.
