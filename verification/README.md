# Meme Watcher

A server that indexes a folder of media files (pictures, videos, ...) and
serves them with their thumbnails, blurhash placeholders and a paginated
listing. The index keeps paths relative to the watched folder, so the
folder can move.

## Layout

- `src/` — the library, written in Verus and proved: settings and paths
  (`config`, `paths`), index bookkeeping (`watcher`, `file_info`,
  `media`, `imaging`, `thumb`), the listing (`page_data`, `pagination`,
  `order`), HTTP serving (`range`, `headers`, `routes`, `request`), and
  the text and time helpers they share (`text`, `time`).
- `tests/` — tests of the library on concrete values.
- `app/` — the program around it: command line, database, file system,
  ffprobe and ffmpeg processes, and the Rocket server.
