# rust_macro

A keyboard and mouse macro recorder and player, with its core verified by
Verus.

- `src/` is the verified library: the macro model and its validation, the
  compiler from timestamped input events to steps, the playback state
  machine, scancode and stroke conversions, hotkey matching, the recording
  session, the session slots and listener decisions of the desktop backend,
  the wire forms, and the proofs of the laws that tie them together
  (record-then-play, scancode and stroke round trips, playback repetition,
  exact streamed moves, wire round trips).
- `app/` is the program around it: the command-line tool (whose `listen`
  command runs the desktop backend without a window), the device layer
  (stdin/stdout, the Windows driver), the tasks that run playback, recording
  and the hotkey listener, file storage, and the desktop backend's commands.
- `tests/` exercises the library through its public interface.
