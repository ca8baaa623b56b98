# opencode_monitor

The verified core of a monitor for coding agents. An agent server sends a stream of events; the
monitor's view wants messages about threads, turns and items. This library translates the one into
the other and holds the rules around it: which models a request means, how past messages are
replayed, which images may be fetched, what a prompt is made of, where tokens are kept.

- `src/` is the library, written in Verus. Values are modelled in `json.rs` (`JsonView`), state in
  `session_state.rs` (`StateView`); each function states its result over those models.
  - `event_translator.rs`, `tool_items.rs`: events to messages
  - `replay.rs`: past messages of a thread
  - `prompt_parts.rs`, `images.rs`: what the user sends
  - `models.rs`, `threads.rs`, `workspaces.rs`, `settings.rs`, `doctor.rs`: lists, requests, settings
  - `background.rs`: helper prompts
  - `stream_laws.rs`, `text_stream_laws.rs`, `tool_laws.rs`, `item_laws.rs`, `order_laws.rs`,
    `replay_laws.rs`: what holds of whole runs of events
  - `worktree_laws.rs`: what holds of the names of worktrees
  - `json_text.rs`, `images.rs`, `prompt_parts.rs` and `text.rs` hold the declarations of outside functions, which are
    believed, not proved; the doc comment of each says what is claimed
- `tests/` runs the library with the real outside crates.
- `app/` is the ordinary Rust around it: REST calls, files, the keychain, processes and the clock.
