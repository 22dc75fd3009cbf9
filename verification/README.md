# numerical_approximater

A terminal explorer for first-order ODEs `y' = F(x, y)`.

- `src/` is the verified library (Verus): equation normalisation, lexing and
  syntax validation, the function-name rewrites, text-field editing, focus
  rings, key handling as a state machine, point sub-sampling, file-name
  sanitising and the small parsers the dialogs use. Expression trees are built
  by `evalexpr`, behind one trusted wrapper.
- `app/` is the program around it: the terminal loop, drawing with `ratatui`,
  floating-point integration (Euler, improved Euler, RK4), number formatting
  and writing export files.
- `tests/` exercises the library through its public API.
