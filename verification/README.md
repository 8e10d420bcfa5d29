# grok2api

The logic of a proxy that serves the OpenAI chat-completion format (and a
few public image, video and voice pages) on top of the Grok web backend,
written in Verus with its behaviour stated in contracts and proved.

## Layout

- `src/` — the verified library.
  - `text`, `json`: character sequences and a JSON value model.
  - `model`: the model catalogue.
  - `headers`, `client`: request headers, browser profiles, client pooling,
    body previews.
  - `upstream`: the line protocol of the upstream stream (line splitting,
    broken-stream lines).
  - `tools`, `cards`: tool-usage cards and image cards in model output.
  - `processor`: the reply processors — streamed and collected chat, video
    and image replies — as state machines over upstream documents.
  - `chat`, `usage`, `voice`, `image_edit`, `video`, `imagine`: request
    shaping and checks of each service.
  - `auth`, `session`, `batch`, `errors`: access checks, public-page
    sessions, batch task bookkeeping and errors.
  - `ext`: the calls into other crates, each a trusted item with its
    contract.
- `tests/` — tests of the library on concrete values.
- `app/` — the HTTP side: routes, upstream requests, streams and shared
  state. It performs the I/O and hands plain values to the library.
