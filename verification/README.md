# emux (verified core)

The decision-making core of the emux terminal multiplexer, written in Verus
so that each function's contract is proved.

- `src/` — the library: the VT parser (`parser`,
  `params`), the terminal screen (`screen`, `grid`, `cursor`, `search`,
  `pattern`), panes and their layout (`pane`, `geometry`, `operations`),
  input (`keys`, `modes`, `mouse`), rendering (`render`, `cells`,
  `statusbar`), the daemon's protocol (`ipc`, `daemon`, `schedule`), the
  configuration defaults (`config`), the pseudo-terminal interface (`pty`)
  and release handling (`upgrade`). Laws that span several functions are
  public proof functions named `law_*`. Every function is verified except
  six small trusted wrappers, whose contracts are taken on trust and whose
  bodies only make one outside call: `text::string_from_chars`
  (`String::from_iter`), `text::char_from_u32` (`char::from_u32`),
  `keys::lowercase_chars` (`str::to_lowercase`), and, over the `regex`
  crate, `pattern::regex_new`, `pattern::find_spans` and
  `screen::regex_error_text`; `regex::Regex` and `regex::Error` are
  declared as outside types.
- `tests/` — tests run against the compiled library.
- `app/` — the input/output around the library: crossterm events and
  drawing, serde forms of messages and configuration, sockets on disk, the
  daemon's event loop (which hands each event to `daemon::daemon_step` and
  carries out the actions it returns), PTY writes and the self-upgrade
  commands.
