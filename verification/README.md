# pinakey

A Vietnamese input method core (Telex, VNI, VIQR and their variants), written in Verus: the
transformation engine, spelling checks, the key-event state machine of a front end, macros,
emoji lookup, configuration paths and the small parsers around them, each with a contract
proved by Verus.

## Layout

- `src/` — the verified library.
  - Transformation engine: `rules`, `rules_parser`, `input_method_def`, `transform_spec`,
    `transform`, `flattener`, `cvc`, `spelling`, `engine`, `utils`, `mode`, `flag`.
  - Front end: `engine_core` (key events to actions), `action`, `keysym`, `display`
    (preedit and underline-free display), `backspace` (backspace correction), `shortcuts`,
    `props`, `lookup` (emoji and hexadecimal lookup table), `transport`, `ibus_signals`
    (the IBus signals of a key's actions).
  - Data: `config` (+ `config/flags`), `charset`, `dict`, `mactab`, `emoji`, `fuzzy`,
    `recent`, `hex`, `text`, `order`, `unicode`.
  - Platform glue that is pure computation: `inject` (keycode search), `x11` (`WM_CLASS`
    parsing), `ibus_address`.
- `app/` — ordinary Rust around it: file I/O, the JSON form of the configuration and of the
  EmojiOne table, X11 calls through `x11rb`, the C interface, and a threaded engine handle.
- `tests/` — tests of the library.

Outside crates used by the library: `regex` (rule matching), `chrono` (date and time in
macros), `dirs` (configuration directories); `serde`, `serde_json` and `x11rb` are used by
`app/` only.

## Data not included

No legacy charset tables are included, so `charset::encode` gives UTF-8 for every charset name
and `charset::get_charset_names` lists only Unicode. No bundled word list, EmojiOne table or
built-in transport rules are included either: dictionaries, the emoji table and the index, and
the transport rules are built only from what is loaded at run time (`app/` reads the user's and
the system's files).
