# ccpast

A terminal browser for the session history that an AI coding assistant keeps
as JSONL logs under a data directory in the user's home: one flat list of every
session from every project, with a reader, a `/` filter (optionally over whole
conversations), resume/fork through the assistant's command line program, and
deletion into a trash directory with an `index.jsonl` audit line.

## Layout

- `src/` is the library, written in Verus and verified:
  - `json.rs`: a JSON value as plain data, and each log line read into one with serde_json;
  - `parser.rs`: one log record, typed (`parse_line`);
  - `reader.rs`: the turns of a conversation (`load_turns`);
  - `session.rs`: session metadata (`extract_meta`);
  - `scan.rs`: path names (file names, stems, extensions, `.jsonl` logs, path equality);
  - `trash.rs`: the trashed file's name and the trash index line;
  - `resume.rs`: the resume command line and its outcomes;
  - `ui/`: the browser's state machine (`handle_key`) and the text of its
    screens;
  - `text.rs`, `time.rs`, `util.rs`: characters, instants, width-aware
    truncation.
- `app/` is the program around it: reading files, walking directories,
  spawning the assistant, drawing with ratatui and reading keys with
  crossterm.
- `tests/` runs the library on concrete values.
