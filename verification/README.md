# diffv

A git diff pager for the terminal: unified and side-by-side views, syntax
highlighting, word-level change emphasis, a file sidebar and a file list, mouse
selection, search, and live refresh.

The library in `src/` holds the pager's logic, verified with Verus. Every
function states what it returns or changes; the laws of the viewer as a whole
are public proof functions named `law_*`.

| Module | What it holds |
|--------|---------------|
| `text`, `paths` | Strings as sequences of characters, slash-separated paths |
| `cells` | Grapheme clusters, display columns, clipping and shortening |
| `config`, `themes`, `palette` | Settings, built-in themes, colors, style specs |
| `git` | Which git commands to run, and what their output means |
| `diff` | The unified diff parser and the word-level comparison |
| `highlight`, `rows` | Syntax colors, and the display rows of a file |
| `geometry`, `help` | Where things stand on the screen |
| `keys`, `search` | Key bindings, and the search in a file |
| `tui`, `session`, `select`, `events` | The viewer's state and how events change it |
| `draw`, `body`, `footer`, `list`, `modal`, `render` | What is painted |
| `laws` | What holds of the viewer whatever happens to it |

What other crates compute is behind a few trusted items: grapheme clusters,
escape stripping and key matching of `uncurses`, highlighting and regular
expressions of `syntect`. Each says in its doc comment what is believed of it.

The program in `app/` is ordinary Rust around the library: it reads the
configuration, runs git, watches the repository, and connects the viewer to the
terminal. The viewer answers each event with what is to be done outside, and
each frame with the texts to paint.
