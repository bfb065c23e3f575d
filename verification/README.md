# desk_todo

The verified core of a small desktop widget: a month calendar with a list of
things to do for every day, reminders, three themes, a tray icon and a global
key combination that pins the window.

- `src/` is the library. Every function in it carries a contract that Verus
  proves: what each click, key press and tick of the clock does to the state of
  the program (`app`, `agenda`, `editor`, `navigation`, `settings`, `titlebar`),
  the calendar grid (`calendar`, `date`), the reminders (`reminder`,
  `minute_reminder`), the store of items (`models`), where files are kept
  (`storage`), the log (`logger`), notifications and the programs that show them
  (`notify`, `launch`), pictures as PNG files (`png`, `icon`), and how everything
  looks (`theme`, `widgets`, `todo_list`, `time_picker`, `font`).
- `app/` is the program around it: the window, the files, the tray and
  the global key combination. It hands plain values to the library and does what the library
  answers.
- `tests/` runs the library on concrete values.

The state of the program is `app::App`. Its methods change the state and return
a list of `app::Effect`: what has to be done outside of it, in that order.
