# VideoFerry

A desktop video converter. The library under `src/` decides what happens: which files a task still has
to convert, how the queue goes on after each conversion, where the finished files go, and what the
window shows. Verus proves that each function does what its contract says, and that the laws stated as
public proof functions (`law_...`) hold for every input.

## Layout

- `src/`: the library.
  - `model`, `time`, `text`, `paths`, `natural`, `clock`: values and how they are written.
  - `disk`, `media_files`, `targets`, `renaming`, `summary`, `watch`, `counts`: what a scan of the disk
    means for the tasks.
  - `queue`, `board`, `run`, `finish`, `editing`, `rescan`, `task_edit`: the queue and its run;
    `queue_laws` and `watch_laws` hold its laws.
  - `publish`, `store`: file operations one at a time, so that no failure loses a file.
  - `stored`, `stored_queue`, `history`, `json`: the state that outlives the program.
  - `encoding`, `form`, `choices`, `settings_rows`, `presets`: the settings.
  - `jobs`, `stream_policy`, `output_naming`, `control`, `engine`, `progress`: one conversion.
  - `review`, `thumbnails`: choosing the photos of a slideshow.
  - `controller`, `commands`, `drafts`, `snapshot`, `panels`, `task_rows`, `task_files`, `task_sort`:
    what the window asks for and shows; `controller_laws` holds its laws.
- `tests/`: tests of the library.
- `app/`: the window, the disk, the worker threads, and the media engine around the library.

## What is taken on trust

`json` reads and writes JSON with `serde_json`, `text` extends and lower-cases strings with the
standard library, and `queue` changes a task in place in a `VecDeque`. Each of these calls stands in a
function of its own, whose contract says what is believed of it.

Paths are texts with `/` between their parts. Slashes and dots that name nothing are read past, so that
`a//b` and `a/./b/` are one path; `paths` defines the plain form by which paths are compared. Frame rates
are carried as the bit patterns of doubles; arithmetic with fractions stays in `app/`.
