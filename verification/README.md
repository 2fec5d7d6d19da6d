# avz

An abstract music video generator: an mp3 in, a music-reactive video out.

- `src/` is the library, verified with Verus: configuration values and their
  parsers, the precedence chain that merges configuration layers into one
  validated configuration, the documented example configuration, the ffmpeg
  argument vector and the reading of what ffmpeg prints, the integer
  arithmetic of frame timing and analysis windows, the "did you mean"
  suggestions, the exit-code classification, and every line the commands
  print. Each public function states what it returns in its contract; the
  laws that relate several of them are public proof functions named `law_*`.
- `app/` is the program around it: argument parsing, the terminal, TOML
  files, running ffmpeg, decoding the song, and the floating-point signal
  analysis.
- `tests/` runs the library on concrete values.

The commands are `avz render`, `avz probe`, `avz presets` and
`avz config --example`. The GPU renderer that draws the frames and the
preset sources are not part of this tree, so `avz render` stops, as not
implemented, once the song has been decoded and analyzed and every argument
has been checked.
