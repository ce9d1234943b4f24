# zed

How the editor reads requests to open something, how it serves the command line
tool, and what its performance profiler shows, verified with Verus.

- `src/open_request.rs`, `src/parse.rs`: requests, and how they are read from URLs.
  Reading pauses with a question where only the running editor knows the answer.
- `src/parse_laws.rs`, `src/prefixes.rs`, `src/whole_reading.rs`: what holds of reading
  as a whole.
- `src/escapes.rs`: what percent-escapes and form queries stand for.
- `src/codec.rs`: the calls into outside crates, with the contracts that are
  believed of them. Nothing else in the library is believed; the name
  `with_replacements` in `src/escapes.rs`, for what one of these calls returns,
  has no other facts than those contracts.
- `src/open_paths.rs`, `src/cli.rs`: opening paths and serving the tool, as steps
  that say what is to be done next.
- `src/timings.rs`, `src/profiler.rs`: timings in order, and the profiler window.
- `src/remote.rs`, `src/text.rs`: connections and strings.
- `app/`: the listening, connecting, waiting and drawing around the library.
