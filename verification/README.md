# codex-usage-limiter

Watches the rate limits of a Codex account and answers when the remaining quota falls to a floor:
it notifies, interrupts the turns that it owns, or blocks new inference until the quota is reset.

`src/` is a library verified with Verus. It decides; it does no input or output.

- `reducer`, `interrupts`, `reducer_laws`: what each event makes of the limiter's state and what it
  calls for.
- `gate`, `request`, `sending`, `session`, `connect`: which requests are admitted, and which server serves
  which workspace.
- `coordinator`, `coordinator_laws`, `bootstrap`: what an observation, an effect, a reminder or a
  command leads to, and how an account is established and checked again.
- `routing`, `threads`, `protocol`: what a line of a server means, for whom it is, and the messages
  that are sent.
- `parser`, `evaluator`, `identity`: what answers of a server say of limits, owners, threads and
  turns.
- `model`, `state_file`, `state_text`, `stored_state`, `persistence`, `recovery`: the state, how it
  is kept, and what a start makes of what was kept.
- `public_state`, `public_document`, `notifications`, `shell`, `settings`: what is shown and what
  can be set.
- `external_suspend`, `codex`, `paths`: processes outside, and where the command line is found.
- `json`, `json_order`, `json_text`, `members`, `text`, `collections`, `search`: documents, texts and lists.

Four things are believed rather than proved, each beside a statement of what is believed:
`serde_json` reads and prints documents (`json`, `json_text`), `sha2` computes digests
(`identity`), `String::push` appends (`text`), and the running system says whether a backslash
separates the parts of a path (`paths`).

`app/` is the program around the library: processes, files, the clock, and lines of JSON on the
standard input and output. `tests/` runs the library with the real crates.
