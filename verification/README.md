# twir_bot

A Discord helper for the weekly Rust community roundup. It spots links posted
in a channel, collects the links posted since the last checkbox into a list,
flags links that are already in the roundup's links file, reports the recent
Rust posts of lobste.rs and Reddit, and announces a new issue on Bluesky.

- `src/` is the library, verified with Verus: the per-message decisions
  (`handler`), the collection state machine and its reply (`collect`), the
  reply texts (`replies`), the selection and listing of aggregator posts
  (`scrape`), the links file (`links`), the announcement (`bsky`), and the text
  helpers they are built from (`text`, `pattern`, `discord`).
- `app/` is the program around it: the Discord client, the HTTP requests, the
  background refresh of the links file, and the small command-line tools.
- `tests/` runs the library on concrete inputs.
