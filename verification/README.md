# Zombies Weapon Tool

A terminal tool that runs a keyboard and mouse macro: it switches between up to
three weapon slots and clicks the right mouse button, each at its own interval
with a random offset. A global hotkey starts and stops the macro, another one
switches to the next configuration of a router table. The configuration is
edited in the terminal and saved at once; changes to its file from outside are
picked up while the program runs. The interface speaks English and Chinese.

The rules of the tool are a library verified with Verus. The program around it
draws the screen, reads and writes files, opens dialogs and sends input.

## Layout

- `src/text.rs` – characters, lines, splitting and joining, numbers
- `src/lang.rs` – the two languages and their messages
- `src/config.rs` – the configuration and its validation
- `src/keymap.rs` – binding names, keys and buttons, taps
- `src/random.rs` – random draws
- `src/engine.rs` – the engine's switch, the hotkeys, the macro loop
- `src/router.rs` – the router table and the markers of unusable entries
- `src/session.rs`, `src/watcher.rs` – the session file, the file watcher
- `src/fields.rs` – the fields of the interface
- `src/state.rs` – the state of the program and its invariant
- `src/edit.rs` – what keys, mouse and messages do
- `src/flow.rs` – the operations that need files and dialogs, step by step
- `src/laws.rs` – what holds of those operations as a whole
- `src/screen.rs` – what is shown
- `tests/` – tests of the library
- `app/` – the program

An operation that needs something from outside is a task: the library says what
it needs (`App::request`), the program does it and hands the outcome back
(`App::resume`), until nothing is needed any more. What is read from a file is
validated on its way in, so no invalid configuration is ever used.

Random numbers come from the `rand` crate, and paths are compared by the
standard library; the contracts of the two functions in `src/random.rs`, of
`same_path` in `src/watcher.rs` and of `String::push` in `src/text.rs` are taken
on trust. Hooks for the keys of the whole system and simulated input exist on
Windows only.
