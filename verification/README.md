# rust_indicator

The verified core of a Windows input-method indicator, written in Verus.

- `src/` — the library; every function is proved against its contract except the
  one trusted wrapper `text::to_lowercase`, which calls `str::to_lowercase`:
  - `config`: the settings, their defaults, the colour notation
    (`#RRGGBB[AA]` packed as `0xAARRGGBB`) and the `config.toml` template;
  - `config_text`: the reader of `config.toml` (sections, `key = value`,
    comments, last assignment wins, invalid values keep the default);
  - `template`: the proof that the template reads back as the defaults;
  - `caret_detector`: the order in which the caret levels are tried and what
    each level's answer means;
  - `ime_detector`, `fullscreen_detector`: the Chinese-mode, Caps Lock and
    fullscreen decisions;
  - `text`, `number`: trimming, searching and decimal integers.
- `app/` — the Windows side: file access, the process-wide settings, and the
  Win32/COM queries whose answers the library decides on.
- `tests/` — tests of the library on concrete inputs.
