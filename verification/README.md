# termcard

termcard runs a shell command in a pseudo-terminal, captures its colored
output, and renders it as a "terminal card": an SVG (and, in the desktop
shell, a PNG) of a window with title bar, prompt line and styled text.

The library in `src/` is written in Verus. Its own logic carries contracts
that Verus proves; the few calls into outside crates (terminal emulation,
display width, regular expressions, base64, `String::push`) go through small
`external_body` wrappers whose contracts are trusted, not proved, and whose
doc comments say what they claim of the crate they call.

- `ir` — the capture model (styled runs, lines, the screen grid) and its
  conversion from the terminal emulator's final screen; trimming a capture
  to its content.
- `theme` — card themes, the built-in presets and the 256-color palette.
- `redact` — ordered regex rules that censor the text of a capture.
- `export` — card geometry (exact, in hundredths of a pixel), the SVG
  renderer, PTY sizing, and the `@font-face` CSS of the card font.
- `capture` — the decisions of the PTY read loop (stop, deadline, buffer
  cap) and the conversion of the raw output.
- `commands` — the application's commands as computations on plain values.
- `markup` — laws on the card SVG: no string content can change its markup,
  and texts are drawn in order.
- `text` — string helpers (decimal and hexadecimal notation).

Laws of the library stand beside the code as proof functions, for example
that trimming is idempotent, that adjacent runs of a screen line never share
a style, that rules apply in order and disabled or invalid ones are skipped,
and that the card at scale `s` is the card at scale 1 scaled by `s`.

`app/` holds the unverified shell around the library: spawning the command
in a PTY and driving the read loop, rasterizing the SVG to PNG, the
preferences store, environment lookups, and serde copies of the library's
types for the frontend.
