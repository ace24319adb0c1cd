# buoya-news-agent

A local crypto & AI news agent: it ingests feeds and market data into SQLite
and lets you talk to an LLM about them, in a terminal chat UI or over an HTTP
backend (REST + SSE, and MCP at `/mcp`).

## Layout

- `src/` — the library, written in Verus and verified. It holds everything the
  program decides:
  - `agent/` — configuration rules and defaults, session titles and the stored
    form of tool labels, the agent loop's decisions (merging streamed tool-call
    fragments, when a turn asks for tools, how many tool rounds a reply may
    take), the tool registry and how each call's arguments are checked, ingest
    planning and embedding text, feed parsing and the exchange endpoints.
  - `server/` — request validation, error envelopes, SSE event names, the
    OpenAPI route list and the MCP bearer gate.
  - `tui/` — the chat screen's state machine, word wrapping, cursor placement,
    the visible page, the status bar, and the Markdown renderer.
  - `text.rs` — char-level helpers (trimming, decimal formatting, JSON string
    quoting).
- `tests/` — tests of the library on concrete values.
- `app/` — the program around the library: command line, logging, database and
  HTTP I/O, the model API, the terminal loop, and the serde/utoipa/clap copies
  of library types.

## What the program does not do yet

The ingest plan lists CoinGecko, DeFiLlama and Fear & Greed jobs, but the
program has fetchers only for RSS/Atom/JSON feeds and exchange derivatives:
those three jobs are logged and skipped. No embedding model is bundled, so
articles are stored without vectors and semantic search answers with an
error. A configured Telegram connector is reported as unavailable.

Feeds are read with `feed_rs`. The library hides the Media RSS and iTunes
namespaces from it (their elements are not read) and refuses a feed whose
bytes could still make the parser panic: a NUL or ESC byte, a non-ASCII byte
or an unclosed XML declaration in the first 64 bytes, an e-mail address run
bordered by anything but whitespace, quotes, a comma or a slash, or an escape
that spells `@`. Durations in the configuration may hold at most 11 digits.

## Laws

Laws the library proves include: every rendered Markdown line fits the pane
when the pane is at least 3 columns wide and each line's list or quote marker
is narrower than the pane, and the renderer's wrapping makes no empty line,
starts no line with a space (unless its continuation prefix does) and, with a
prefix of spaces, keeps every non-space char; word wrapping fits its width, yields at least one line, drops nothing but
spaces and, when every word fits, joins back to the text; the input cursor
stays inside its box, keys keep the cursor within the input, and Backspace
undoes a typed char; tool lookup finds every registered tool by name, and each
tool's argument schema requires only its own properties and bounds `limit` by
the clamp's range; stored tool labels read back unchanged, stream fragments
merge the same in any chunking, a reply takes at most five tool rounds;
session titles are one line, never empty nor longer than 41 chars, and their
own title; and the default configuration is valid.
