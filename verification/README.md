# logman

A terminal with tabs and panes, for shells on this machine and on others. This crate
holds its logic as a library, written in Verus and proved; the window around it is
ordinary Rust.

| Directory | What it holds |
| --- | --- |
| `src/` | The library. Everything is verified but for the contracts listed at the end. |
| `tests/` | Its tests, which run against the real terminal emulator. |
| `app/` | The window, the keychain, the filesystem and the shells. Nothing there is verified. |

## The library

| Module | What it decides |
| --- | --- |
| `term` | What a terminal shows: the emulator, the palette, lines of styled runs. |
| `syntax`, `editor` | Which language a text is in, how its lines are colored. |
| `profile`, `secrets`, `settings` | What is saved, and what never is. |
| `connection`, `settings_dialog` | The two forms: what they accept, what comes of them. |
| `session`, `ssh_event` | The life of a session, from connecting to its end. |
| `listing`, `file_panel` | The file panel: where it goes, what it lists, what it transfers. |
| `pane_tree`, `workspace` | Tabs, and the panes that share one. |
| `overlays`, `shell`, `window` | Menus, dialogs, shortcuts and the frame of the window. |
| `ui` | Tab strip, menus, scroll bars, color schemes, icons and themes. |
| `text`, `message` | Texts, and wording that is looked up when it is drawn. |

The library decides and its owner acts. A call that needs something done outside says
so in its result: bytes to send, a transport to open, a directory to list, what to focus
and what to draw. What came of it goes back in as an argument.

Colors are whole percents, shares of a split are millionths and font sizes are
ten-thousandths, so nothing in the library is rounded by the machine.

## What is trusted

The contracts of `alacritty_terminal` (in `term/emulator.rs`), of `uuid` (in
`profile.rs`) and of a few functions of the standard library (in `text.rs`,
`listing.rs` and `ssh_event.rs`) are believed, not proved. Each says in its comment
what it claims.
