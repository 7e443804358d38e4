# telepad

A rofi quick-switcher that jumps Telegram Desktop (or a fork such as
AyuGram) to any chat, group, channel or forum topic across all your
accounts.

The project is a Verus crate:

- `src/` is the verified library: the configuration rules, the paths, the
  `tg://` deep links and the key plans that switch accounts, the frecency
  store, the rows of the flat menu and the submenus a choice leads to, the
  reading of rofi's answer, the command line, the login steps, and the
  turning of Telegram's raw answers into cache entries (folders, contacts,
  the paged archive scan).
- `app/` is the program around it: argument handling, the files (TOML
  config, JSON caches and frecency store), rofi, the focus command, xdotool,
  D-Bus, the grammers client, and the floating-point frecency weighting.
- `tests/` runs the library on concrete values.
