# kyanite

The verified core of an image-board downloader: it searches boards
(E621, Gelbooru, Rule34, yande.re, Danbooru) page by page for posts with
given tags, turns their file addresses into items with names and paths,
drops repeated addresses, sorts the items, and keeps the statistics and the
manifest of a download run.

- `src/` is the library, verified with Verus: text helpers (`text`), stable
  sorting (`order`), statistics (`stats`), the manifest (`manifest`), items
  (`item`), run settings (`params`), the version reader (`utility`), file
  names (`utils`), the plain downloader (`downloader`), the collector trait,
  the run's board selection (`collector`), the boards (`collectors`) and the
  limited gatherers (`modules`).
- `app/` is the program around it: the command line, HTTP requests, reading
  the boards' JSON and XML replies, the disk, and the log. It drives the
  library's step functions: for each page it fetches the page and hands the
  posts to the board's `collect_page`; for each item it checks the disk,
  asks `plan_save` what to do, does it, and books the outcome with `save`.
- `tests/` runs the library on concrete values.
