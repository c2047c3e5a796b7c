# Codex App Manager: verified core

The decisions of a desktop manager for the Codex application, written in Rust and
proved with Verus. The manager points Codex to a company gateway, installs and updates
it, dresses its windows in themes, and keeps its own window and settings in order.

## Layout

- `src/` holds the library. Everything in it is verified.
  - `text`, `lines`, `sorted`, `digest`, `errors`: the ground.
  - `config_file`, `env_file`, `gateway`, `config_laws`, `save_again`: the gateway
    settings in `config.toml` and `.env`, and what editing them promises.
  - `url_policy`, `catalog`, `store`: links and navigation, the online catalog of skins,
    and the directory in which skins lie.
  - `file_swap`, `install_root`, `install_flow`, `theme_flow`, `theme_tx`: work that
    alternates with the disk, the network or another process. Each is a small machine: it
    names the next step and is told how the step went.
  - `target`, `policy`, `resume`, `operations`, `settings`, `shell`: the rules of
    installing, of running one operation at a time, of the settings and of the window.
- `app/` carries the steps out. The desktop shell and the platform engines are reached
  through the traits in `app/ports.rs`.
- `tests/` runs the library on concrete values.

## How to read the contracts

Texts are sequences of characters, files are sequences of lines. A spec function says what
a value is, and an executable function says that it gives that value. Functions whose name
begins with `law_` state what holds of the library as a whole.

What is taken from other crates without proof stands in a few functions marked
`external_body`: URL parsing (`url_policy`), SHA-256 and Base64 (`digest`) and JSON encoding
(`shell`), and random identifiers (`install_root`). `text` states what `String::push` does.
