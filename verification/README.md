# cutlist_optimizer

Building blocks of a guillotine cutting optimizer for sheet material, with
their behaviour stated as Verus contracts and proved.

- `src/features/` — the cutting tree (`node`: placing a panel in a free
  rectangle by two guillotine cuts, finding free rectangles, collecting
  placed panels), grouping of panel instances by size (`panel_grouper`,
  `input`), and the panel orders tried by the optimizer
  (`permutation_generator`), and the placement of panels on one stock
  sheet (`placement`: splits with cut thickness, first-fit placement with
  optional turning, used and wasted area).
- `src/models/` — the request/response records (panels, edges, cuts,
  client details, settings, calculation requests, submission results),
  tile dimensions and their groups,
  and generation of all orderings of a list (`arrangement`).
- `src/text.rs` — decimal rendering and small string helpers used by the
  text forms of the records.
- `app/` — serde forms of the records, the panel and request checks that
  read sizes as floating point, the covered share of a sheet (a floating
  point ratio), console reports and the default progress logger.
- `tests/` — unit tests run against the compiled library.

The public proof functions state what holds across calls, such as that
grouping and every panel order tried keep each panel exactly once, or that
a placed panel uses exactly its own area of the sheet.

Not part of this library: the multi-sheet search (its task and solution
records are not defined here), the assembly of the response and the edge
banding totals, which scale lengths in floating point, and the drawing of
sheets. The settings record holds the plain values of a configuration; the
optimization factor, a floating-point number, is not among them.
