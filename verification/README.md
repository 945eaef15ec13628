# status line formatter

Reads a status JSON payload and prints two rows of ANSI-coloured segments:
the workspace directory and branch on top; model and effort, context usage,
the 5-hour and 7-day rate-limit windows and per-model weekly limits below.

- `src/` is the verified library. `json` models the payload; `segments`,
  `time`, `timestamp` and `calendar` format and parse its parts; `limits`,
  `branch` and `status` assemble the rows; `laws` states properties that span
  several functions.
- `app/` is the binary: it reads stdin, the clock, the environment, the usage
  cache file and git, rounds JSON numbers up to whole percentages, and hands
  plain values to the library.
- `tests/` runs the library on concrete payloads.
