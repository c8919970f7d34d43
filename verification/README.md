# drift

The core of a terminal diff viewer, verified with Verus, and the terminal around
it.

`src/` is the library. Every item in it is verified:

| Module | What it holds |
|--------|---------------|
| `diff`, `diff_laws`, `stream` | The unified diff parser, whole and section by section |
| `config`, `builtin`, `color`, `theme` | Settings, built-in themes, colors, styles |
| `text`, `cells`, `rows` | Texts, their columns on a terminal, and the rows of the document |
| `scroll`, `select`, `search`, `document` | The document: pinned headers, scrolling, selections, matches, rebuilds |
| `app`, `layout`, `actions` | The state of the viewer, its layout, what it does |
| `keys`, `handle`, `prompt`, `mouse`, `events`, `event_laws` | What keys and the mouse do |
| `paint`, `draw`, `footer`, `help`, `panels`, `overlay`, `frame`, `frame_laws`, `mascot` | What a frame shows |
| `session` | How a session starts, waits and calls the editor |
| `outside` | The calls into other crates, and what is taken for granted of them |

A frame is a list of steps (`paint::Op`), so that what is drawn can be stated:
each `render_*` function equals a spec function that lists them. An event leads
from one state to the next and to an `Action` that is left to do outside.

`app/` reads config files, runs the event loop and its threads, paints the steps
on a screen, and animates the mascot, whose drift is in floating point. Diffs and
syntax colors come from two traits, `DiffSource` and `Highlighter`.

`tests/` runs the library.
