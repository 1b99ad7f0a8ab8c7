# cetz_core

Path operations of CeTZ (clipping and boolean operations on paths) with a
verified front end.

- `src/` is the verified library.  It parses the operation, mode and
  fill-rule names, checks that region paths are closed, decides for every
  point which side of a boolean operation or a clip it falls on, runs a
  clipping batch (validation order, one shared tolerance, one line
  preparation, per-body area and line clips), and assembles the kept pieces
  of clipped lines into subpaths.  Path coordinates are a type parameter;
  the floating-point geometry is handed in as kernel closures, and every
  contract says what each kernel is given and what becomes of its answer.
- `app/` holds the floating-point kernels (kurbo flattening and winding
  numbers, linesweeper sweeps and topology), the serde forms of the requests
  and results, and the CBOR entry points.
- `tests/` runs the library with the same kernels.

Modules of the library:

| module      | contents                                                        |
|-------------|-----------------------------------------------------------------|
| `error`     | `PathOpsErr`, `BoolError` and their messages                    |
| `fill`      | fill rules and `winding_inside`                                 |
| `boolean`   | boolean operations and the region selector `result_inside`      |
| `wire`      | wire paths, closedness, closed subpaths                         |
| `path_bool` | `path_bool` and `boolean_wire_paths`                            |
| `clip_path` | clip modes, area clips, `clip_path` and `clip_path_batch`       |
| `clip_agreement` | with deterministic kernels: batch equals single clips, area clip equals the boolean operation |
| `runs`      | maximal runs of marked boundary segments                        |
| `chunks`    | chaining kept line pieces into subpaths; the line clip of one subpath |
| `polyline`  | dropping repeated points of flattened polylines                 |
