# curlrs

A terminal HTTP client: type a URL, pick a method, add headers and a JSON body,
send the request, and browse the response, the history of requests and a list of
saved requests.

The decisions of the client are a verified library (`src/`); the terminal
program around it (`app/`) draws the screen, reads keys, performs the requests,
and reads and writes the request database.

- `src/chars.rs`: character-level helpers on strings, with their specifications.
- `src/keys.rs`: key presses as the library sees them.
- `src/text_input.rs`: the editable text field (cursor, selection, lines), its
  model and the laws of editing.
- `src/request.rs`: responses, saved requests, HTTP methods and small formatting.
- `src/app_model.rs`: the mathematical model of the whole client and of each key
  press (`app_step`).
- `src/app.rs`, `src/app_keys.rs`: the client's state and its operations, each
  proved against the model.
- `src/app_laws.rs`: properties that span several operations.
- `src/highlight.rs`: the colouring of the response text.
- `app/main.rs`: the terminal program (ratatui, crossterm, reqwest, tokio).
