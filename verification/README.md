# chess_client

A terminal client for a chess server.

- `src/` is the verified library: the session state (`client`), the commands
  typed by the user and where each request goes, the listing of open games,
  joining a game, the text tools they rest on (`text`: whitespace splitting,
  `i32` parsing), the board and its drawing (`board`), and the messages
  (`request`, `response`). `laws` states properties that span functions.
- `app/` is the program around it: terminal input, HTTP with `reqwest`, the
  websocket with `tokio-tungstenite`, and the JSON form of the messages.
- `tests/` runs the library on concrete values.
