# incline_design

The verified core of a mine-design workbench, written in Verus.

`src/` is the library. It holds the application's state and what every event
changes in it: the open project and its items, what is unsaved, what the editor
refers to, the background tasks, the frame clock, the explorer's view, the status
bar, the stored session and settings, and the translation of source texts. Every
function there has a contract that Verus proves. What the application wants done
elsewhere (by the renderer, the history, the storage, the console) it puts into
`App::outbox`, in order.

- `app`, `content`, `edits`, `startup`, `window`, `browser`, `saves`, `menu`: the
  application and its events
- `model`, `items`, `project`, `editor`, `config`, `sets`, `tasks`, `pacing`: the
  parts of its state
- `view`, `view_key`, `fingerprint`, `order`, `hashing`: the explorer, and when it
  has to be put together again
- `i18n`, `language`, `status_bar`, `text`, `effects`, `icon`: texts and pictures

A few functions call other crates; each stands behind a small function whose
contract says what is taken on trust: `text::separate_with_commas` (thousands),
`language::parse_language` (unic-langid), `i18n::look_up` (i18n-embed),
`icon::unmultiply` (egui), and the specification of `String::push`.

`app/` is the shell around the library: starting up, the event loop, the windows,
drawing, paths on disk, the system's locales, and settings that are floating
point. `tests/` runs the
library on concrete values.
