# scrolling_compilation_maker

A command-line tool that fetches clips and images from a media catalogue,
scales them to one height, lays them side by side and has ffmpeg scroll a
viewport across them, optionally over a song.

- `src/` is the library, verified with Verus: parameter parsing (durations,
  aspect ratios, comma lists), precedence of command line over configuration
  over defaults, the per-page catalogue query and the rules for which files
  are kept, ordering by popularity, output names, encoder settings, the
  ffmpeg filter graph and arguments, and progress tracking. Public proof
  functions named `law_*` state properties that hold across calls.
- `app/` is the program: argument parsing, the interactive prompts, HTTP
  requests, downloads and the ffmpeg and yt-dlp processes. It converts to
  and from the library's plain types and checks each library precondition
  before the call.
- `tests/` runs the library on concrete values.
