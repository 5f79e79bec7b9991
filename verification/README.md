# mc_tui

A terminal client for the Minecraft Bedrock script debugger, with its state,
key handling, log filtering, statistics and stack-frame parsing verified with
Verus.

- `src/` is the verified library:
  - `text.rs`, `order.rs`: character-sequence helpers, decimal text, the order
    in which strings sort;
  - `fields.rs`: editable form fields with a character-boundary cursor;
  - `app.rs`: log entries, filters, the log viewport, command/search/evaluate
    inputs and popups;
  - `events.rs`: debuggee events and their one-line log text;
  - `stats.rs`: accumulation of `Stat2` samples into bounded series, groups
    and dashboard categories;
  - `app_state.rs`: the application state and every transition it makes;
  - `plugin_law.rs`: what learning of a handshake's plugins does to the
    plugins known before;
  - `control.rs`: key handling, the auto-relisten timer, command-line modes;
  - `config.rs`: the persisted settings and how they merge with the command
    line;
  - `frames.rs`: JavaScript stack frames found in log messages, and their
    source-map enrichment;
  - `adapter.rs`: what the desktop front end receives, and its source-map
    status decisions;
  - `view.rs`: layout arithmetic, the log and popup windows, the footer
    hint, and the filtering the dashboard draws from.
- `app/` is the terminal program around it: argument parsing, the session,
  the terminal, input, configuration files and drawing.
- `tests/` exercise the library.
