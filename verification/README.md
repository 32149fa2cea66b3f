# kt - Seriously Simple Time Tracker, verified

`kt` tracks the time spent on tasks: `kt new` creates a task alias, `kt in` and `kt out` punch
in and out, `kt switch` swaps the running task with the last one, `kt add` enters an interval by
hand, `kt list` lists the tasks and `kt log` shows the time per task and day.

The library (`src/`) is written in Verus and its contracts are proved:

- `store`: the persisted state as values (task set, running task, last task, timelog) and the
  laws relating its writes and reads;
- `cmd`: one module per subcommand, each with a specification of what it does to the store
  (`add` is a step function that asks for missing values instead of prompting);
- `cli`: the subcommands and their dispatch;
- `calendar`, `clock`, `text`, `time_ext`: dates, instants, and text formatting and parsing;
- `wrappers`: the calls into `chrono`, `time`, `uuid`, `simsearch` and `serde_json` (the task
  set file), each behind a contract taken on trust from the crate.

The application (`app/`) parses the command line with `clap`, reads and writes the data
directory, prompts with `inquire`, and prints with `colored` and `tabled`.
