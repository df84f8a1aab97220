# melops

Audio captioning tools: download media, transcribe it with a TDT speech
recognition model, and write SRT subtitles; scrape web pages for YouTube links.

- `src/` is a Verus library holding the decisions and data structures, each
  function with a contract proved by Verus:
  - `segment`, `slice`, `chunk`: overlapping windows over audio samples (streamed
    or in memory) and chunk ranges, with exact window contents and counts and
    the whole sequence each produces (`arith` holds the span arithmetic);
  - `tdt`: greedy Token-and-Duration Transducer decoding decisions, frame
    arithmetic, token timing and the joining of chunk transcriptions;
  - `cache`: the cache directory layout and the `use` / `auto` / `force`
    cache strategies;
  - `index`: the resource cache behind the artifact index (`get` /
    `get-or-insert` / `replace` accesses);
  - `web`, `urlword`: YouTube URL extraction from HTML links and text
    (parsing by `scraper`; a word of text counts when it has the shape of a
    YouTube URL), URL
    resolution fallback, batch limits;
  - `params`, `cap`, `dl`, `cli`: yt-dlp output paths and templates, caption
    and download bookkeeping, command arguments.
- `app/` is the `mel` command line program: argument parsing, ffmpeg, yt-dlp
  through Python, HTTP, ONNX Runtime inference, mel-spectrogram features
  (floating point), and file I/O.
- `tests/` exercises the library.
