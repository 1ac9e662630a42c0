# simplex_trace_tool

Reads the trace logs of Simplex consensus validators (`validator-{id}.log`),
classifies each line into an event, correlates sends with receipts, follows
each node through each view, and serves the result over HTTP for a
timeline viewer.

The library under `src/` is written in Verus. Every function in it carries a
contract that Verus proves, except five small wrappers around outside calls
(`regex_syntax::is_word_character`, `blake3::hash`, chrono's RFC 3339
parse, `str::to_lowercase` and `String::push`), whose contracts are trusted:

- `text`: character classes, substring search and number parsing.
- `word`: the Unicode word-character class, from `regex-syntax`.
- `events`: event kinds and categories, the substring rules that classify a
  message, the registry of classifiers, and message ids (BLAKE3).
- `parser`: the matchers that pull views, payloads, leaders, peers and actors
  out of a message; the log-line grammar; the timestamp parse (`chrono`);
  the validator log file names.
- `state`: the event types, a stable merge sort, the derived edges, view
  records, time segments and summary, the assembled trace, and the laws
  that hold of them.
- `api`: the event query (filters, offset, limit) that the interface serves.

`app/` is the server around it: command line, file reading, the HTTP routes
(axum), serialisation (serde) and the shared state. `tests/` runs the library
on concrete inputs, including checks of the matchers against the `regex`
crate.
