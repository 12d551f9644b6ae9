# Shade

Privacy-first personal analytics: screen time per application and
category, daily goals, focus patterns, and CSV/JSON export, with all data
kept on the local machine.

## Layout

- `src/` is the verified library, checked by Verus:
  - `analytics/` – category classification, daily summaries and their
    category breakdown, goal progress and weekly adherence, focus analysis
    (app switches, flow runs, focus score);
  - `collectors/` – collector settings, the polling tracker that turns
    foreground-window changes into finished sessions, the session tracker
    that opens and closes sessions as apps change and the user goes idle,
    and the parsing of what each platform reports about the front window;
  - `export/` – CSV tables and the data of the JSON export;
  - `tui/` – dashboard state, key handling and list rows;
  - `commands.rs` – day ranges, export formats, goal usage and listings
    behind the command line;
  - `config.rs`, `maps.rs`, `records.rs`, `text.rs`, `time.rs` – the
    configuration model, string-keyed maps, stored records, text rendering
    and calendar arithmetic.
- `app/` is the program around it: the command line, the SQLite store,
  the configuration file, the terminal dashboard and the background
  collector threads.
- `tests/` exercises the library.
