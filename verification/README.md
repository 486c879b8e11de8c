# descramble

Restores images whose whole rows and columns were shuffled, by ordering the
strips of each axis so that similar strips sit next to each other.

- `src/` is the verified library (Verus): permutations and their validation,
  the RGBA raster and its rearrangement, scrambling, the RGB strip vectors that
  the search measures, the search settings and the permutation moves the search
  makes with the bookkeeping of where each item stands, the adjacency score of
  an experiment, the rules on input and output files (lossless names, usable
  and distinct destinations, the size bound of an original), and the decisions
  of the experiment window and its image viewer with the validated fields and
  pixel comparisons.
  Proof functions state the laws: the scramble map reconstructs the original,
  reordering one axis keeps every squared distance between strips of the other,
  rotations and reflections undo each other, and more.
- `app/` is the command line around it: argument parsing, image files and
  reports, logging, and the `f64` objective with the Radiate-based memetic
  search.
- `tests/` exercises the library.

The graphical window is not part of this crate. Its decisions stand in
`src/gui` (the experiment window's state machine, the viewer's state machine,
the validated fields and the pixel comparisons), but the drawing, the file
dialogs and the background worker, which need a GUI toolkit, an async runtime
and a display, are absent; `app/` is the command line only.
