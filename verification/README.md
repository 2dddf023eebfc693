# process_watcher

A terminal monitor of the processes of a Linux system, with its logic
verified by Verus.

- `src/` is the verified library:
  - `models.rs`: the bounded, most-recent-first history (`RingBuffer`) and the
    rows of the process table;
  - `text.rs`: splitting text into lines and fields, and reading numbers as
    `u64::from_str` does;
  - `parser.rs`: what is read out of `/proc/<pid>/status`, `/proc/<pid>/stat`
    and `/proc/stat`, and the caches that turn CPU counters into the ticks
    spent between two samples;
  - `ordering.rs`: the stable sort of the table by a column, and the tree of
    processes below pid 1;
  - `search.rs`: the rows whose command contains a search text, and the
    current match;
  - `labels.rs`: the texts of the table cells;
  - `app.rs`: the interface state and how it reacts to samples, keys and
    clicks;
  - `laws.rs`: properties that span several functions, proved.
- `app/` is the program around it: the sampling thread, the terminal drawing
  with `ratatui`, reading keys and clicks with `crossterm`, the text fields of
  `tui-input`, writing the CSV file, and the percentages, which are floats.
- `tests/` runs the library on concrete values.
