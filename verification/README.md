# m3u8_downloader

An HLS (m3u8) downloader whose decisions are verified with Verus.

- `src/` — the verified library: reading playlists (plain or base64), the
  choice among master-playlist variants, resolving segment URIs, the ffmpeg
  download list, the cache-directory name (hex of SHA-256), download
  progress, and the checked options.
- `app/` — the command-line program: argument parsing, HTTP, the terminal
  prompt and progress bars, files, and running ffmpeg.
- `tests/` — tests of the library on concrete playlists and URLs.
