# Buzzer

A self-contained buzzer with shared state. People open a room, join it with its
number and race for the button; the captain of a room resets the buzzers, locks
the room and sets its mode. All of a room's state is public: whenever it changes,
everyone in the room is sent the new state.

- `src/` is the library: the rules, with their contracts and proofs in Verus.
  Modules whose names end in `_laws` state what holds of every room, session and
  lobby.
- `tests/` runs the library.
- `app/` is the server around it: sockets, channels, timers, JSON and tracing. It
  listens on port 7777, and reads the page `buzz.html`, the sound
  `deployed_media/bewoop.mp3` and the icon `deployed_media/ffxiv-logo.ico` from
  the directory that it is started in. `OTLP_TONIC_ENDPOINT` names the collector
  that traces go to; every other variable that begins with `OTLP_TONIC_` is a
  header for it.
