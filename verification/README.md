# ccline

Status-line segments for a coding-assistant session, written in Verus.

- `src/` is the verified library:
  - `context_window`: reading a session transcript (latest assistant turn,
    summary lines that point to another session, lookups by message uuid),
    the session's prompt-cache totals, the order in which session files are
    tried, and the segment's text.
  - `usage`: the quota segment's decisions between cache and network, its
    option defaults, request text, reset-time and line rendering.
  - `text`: decimal rendering and Unicode whitespace trimming.
  - `segment`: segment identifiers.
- `app/` is the program around it: standard input, files, the network and
  the floating-point rendering of percentages.
- `tests/` exercises the library on concrete values.
