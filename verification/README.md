# moonshine-tray

A system tray indicator for the moonshine streaming server: a crescent whose colour tells
whether the daemon is stopped, starting, idle or streaming, with a menu that starts, stops and
restarts its unit, opens the pairing page and follows the log.

- `src/` is the library, written in Verus. It holds everything that is computed or decided -
  the event loop, the reading of the daemon's answer, the menu, the icon, the calls to systemd -
  with contracts, and laws that relate them (the public proof functions whose names begin with
  `law_`).
- `app/` is the program around it: arguments, D-Bus, HTTP, the tray host and processes.
- `tests/` runs the library.

What is taken on trust is marked `external_body` or `assume_specification` and says so in its
doc comment: looking settings up in a TOML document (`config`), decoding UTF-8 lossily
(`probe`), and appending a character to a string (`text`).
