# pi_rust_cli

The command line of a coding agent: what it understands of its arguments, what it decides at each
key press, and what it shows. The decisions are a verified library; the terminal, the sessions and
the network are brought by a host.

## Layout

- `src/` is the library. Every function states what it returns, and Verus proves it.
  - Reading: `args`, `commands`, `run`, `keys`, `keybindings`, `submit`, `settings`, `help`, `json`.
  - Paths and packages: `paths`, `plugins`, `resources`, `config`.
  - Text: `text`, `numbers`, `screen`, `wrap`, `markdown`, `diff`, `pieces`, `panels`, `tools`.
  - What is shown: `transcript`, `live`, `startup`, `chrome`, `frame`, `summary`.
  - Overlays: `overlay`, `models`, `scoped`, `tree`, `sessions`, `dialogs`, `choices`.
  - The prompt and its session: `editing`, `bytes`, `completion`, `offers`, `actions`, `background`, `opening`, `session`.
- `app/` is the ordinary Rust around it: the loop, the threads, files, and the trait `Host` for what
  a terminal, an agent and a package manager have to offer.
- `tests/` runs the library on concrete values.

## What is proved

Texts are sequences of characters, screens are sequences of lines, and a step of the interface is a
function from a state and an event to an action and a status. Beside the contracts of the functions
stand laws about them: that clipping twice is clipping once, that the footer stands last, that a
package command wins over everything else, that the session in use is never deleted, that the
relative path leads back, and others. They are the public proof functions of each module.

## What is trusted

`shlex::try_join`, `serde_json::from_str`, `serde_json::to_string_pretty`, `regex::Regex::captures`,
`similar::TextDiff::from_words`, `str::to_lowercase` and `String::push`. Each stands behind a small
function or a declaration that says what is believed of it.
