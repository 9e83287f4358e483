# statusline

A terminal status line for a coding assistant session, built on a verified
library.

- `src/` is the library, verified with Verus: byte-level string primitives
  (`text`), the JSON model the program reads and its serde_json parse (`json`), the status input
  (`models`), token totals (`tokens`), ISO-8601 timestamps to Unix seconds
  with the calendar laws behind the conversion (`timestamp`), the daily cost
  and billing-block accounting (`cost`), and formatting (`format`, `color`).
- `app/` is the program: it reads standard input, walks and reads the
  transcript and the session logs line by line, runs the external status
  command and git, deserialises the status input with serde, and prints. Float rendering of token counts and dollar amounts
  lives there too.
- `tests/` exercises the library on concrete values.

Money is kept as exact integers in units of 1e-7 dollars; the program turns
it into dollars only for display.
