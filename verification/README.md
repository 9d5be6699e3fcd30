# hpyd

Core of a YouTube download service, written in Verus.

`src/` is the verified library:

- `pagination`, `responses` — page arithmetic and the JSON envelopes of the API.
- `errors` — error kinds, their HTTP status and their rendering.
- `video_info`, `get_video_info` — qualities and formats; recognising a video id in a
  pasted link; turning the lookup tool's listing into the offered formats (distinct,
  ordered by quality); reading upload dates.
- `download`, `repository`, `use_cases`, `download_worker` — the download life cycle,
  the in-memory store (newest-first listings), the get/list/cancel/create operations and
  the decisions a download worker takes (file names, progress lines, produced file,
  upload key).
- `s3`, `ffmpeg`, `config` — storage settings and object naming, media-tool command
  lines, server settings and log format.
- `clock`, `ids`, `text` — clock and calendar, identifiers, character-level helpers.

`app/` is the server: axum routes and handlers, process and network I/O, serde and
OpenAPI forms of the library's types. `tests/` exercises the library.
