# ws-ckpt

Checkpoints of workspaces on copy-on-write storage: the bookkeeping of a snapshot daemon and its
command line, verified with Verus.

- `src/` is the library. It holds the snapshot index and its lineage, the registry of workspaces,
  cleanup policies and configuration, guarded checkpoints, paged listings, and what the command
  line sends and shows. Every function states what it returns, and Verus proves it.
- `app/` is the program around it: arguments, sockets, files, and the storage tools.
- `tests/` runs the library on concrete values.

Work that alternates between decisions and the file system is a stage machine in the library: a
stage names the work to do, and what the work showed is an event that leads to the next stage.
`init`, `checkpoint`, `removal`, `overrides` and `recovery` hold these machines; `app/` does their
work.

What the library takes on trust is stated in `dash`, `digest`, `json`, `calendar`, `wire` and
`text`: each item there names the function of another crate, or of the standard library, that it
relies on.

The laws of the library are its public proof functions. Among them: following the cursors of a
listing gives every snapshot once and in order (`traversal`); deleting and pruning snapshots keeps
the lineage consistent, and pruning one is unlinking it (`lineage`); a guarded operation that was carried out is recognised when it
is asked for again, and is rejected only while nothing was done (`guarded`, `checkpoint`); and a
restart restores what was registered (`restore`).
