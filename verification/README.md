# lattice

A verified library for an acausal event lattice. Events ("achronons") name
their antecedents; an event precipitates once all of its antecedents have.
The library selects each next batch of events, checks that a batch is
orthogonal, renders the lattice as a prompt for a language model, reads the
model's proposals back, and keeps the sandbox's agents and query budget.

- `src/` is the library, verified with Verus. Each public function states its
  result over mathematical views (sets of ids, sequences of characters, maps
  from transformation ids to operators), and the proof functions state the
  laws that tie the functions together (a selected batch is causally
  independent, the prompt's two sections never share an event, operators on
  disjoint subspaces commute when their entries are
  integers, ...; for the floating-point tensors of the program this is not
  claimed). The sets of ids are `roaring` bitmaps,
  reached through a handful of trusted wrappers in `src/bitmap.rs`.
- `tests/` runs the library on concrete lattices.
- `app/` is the program around it: the floating-point tensor engine (candle),
  the Anthropic client (reqwest), the visualization daemon (axum), and the
  three precipitation loops.
