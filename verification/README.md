# moleculer transport and TTS service rules, verified

A verified library for the transport layer of a moleculer service broker and the
rules of a text-to-speech service built on it.

- `src/` — the library, verified with Verus:
  - `text` — characters of strings, decimal rendering, the `u16` parser;
  - `address` — `parse_http_address` and its round-trip laws;
  - `message` — HTTP envelopes, acknowledgements, received messages,
    `HttpConfig`, transport errors, `Transporter`;
  - `transport` — the HTTP transport's state: address, connection, topics,
    delivery of published and posted messages, stream steps, server start errors;
  - `client` — URLs, envelopes, status and reply interpretation of the HTTP client;
  - `nats` — the NATS transport's state and publish retries;
  - `channels` — the actions of the channel listeners, the registry of requests
    waiting for a response, response waiters;
  - `tts` — languages, request checks, defaults, health answers, WAV container,
    base64 audio and its uniqueness, synthesis replies by route, decoding the
    audio of a reply, output file names, waiting for a response file;
  - `downloader` — model files, URLs, cache decisions, run summary;
  - `logging` — log level names.
- `app/` — the runtime around it: warp server, reqwest and NATS clients, tokio
  channels, serde forms, float audio conversion, service options and request
  glue, the demonstration client, file I/O.
- `tests/` — tests of the library.
