# room_server

A small UDP server that keeps rooms and the positions of their users, answering JSON
requests through a tiny MVC layer.

- `src/` is the verified library: rooms and their users (`model`), the request header,
  registry, middleware and controller layer (`mvc`), the room controller (`controller`),
  the per-message decisions of the server (`server`), and the calls into serde_json, http,
  regex and std with the contracts they are trusted for (`external`).
- `app/` holds the UDP socket thread, the main loop, and the serde copies of the library's
  values that travel as JSON.
- `tests/` runs the library on concrete values.
