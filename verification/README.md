# ycbust

A downloader for the YCB (Yale-CMU-Berkeley) Object and Model Set, with its
logic verified by Verus.

- `src/` is the verified library: the catalogue (subsets, archive URLs), the
  on-disk layout, the per-archive download state machine and the download
  plan, archive-entry screening, S3 destinations and upload tallies, object
  validation, and the decisions of the command-line tool.
- `app/` is the command-line program and the I/O around the library: HTTP
  requests, file checks, tar/gzip extraction, S3 streaming and the blocking
  wrappers. It performs the actions the library decides on and reports the
  outcomes back.
- `tests/` runs the library on concrete values.
