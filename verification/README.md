# screen_lib

Companion service of a keyboard/screen sharing desktop application: it lists
the attached keyboards, shares one machine's mouse with another, sends files
between machines, and relays a live screen stream to WebSocket viewers.

- `src/` is the verified library: the folder layout (`config`), the
  file-transfer wire format with its round-trip law (`transfer`), the device
  filters (`devices`), the peer registry of the keyboard/mouse server
  (`peers`), the cursor hand-over state machine (`km`), the stream relay
  decisions (`streaming`), the capture commands' state (`capture`), the user
  interface events and menu (`event`), and bundle unpacking (`archive`).
- `app/` is the program around it: the desktop shell, sockets, processes, the
  HID backend, input injection, and the serde copies of the library's types.
- `tests/` exercises the library on concrete values.
