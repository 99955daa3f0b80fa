# incremental_code

An incremental programming game: the player writes programs in NotPython, a small
language, "compiles" them to earn resources, and spends those resources on upgrades that
unlock more of the language and a faster machine.

The library in `src/` holds the game's logic with its proofs:

- `lexer`, `grammar`, `parser`, `ast`: the language's tokens, its grammar as a
  specification, and a parser proved to follow it.
- `visitor`: hooks for passes over the syntax tree, and the walks that visit the
  children of a node and rebuild it.
- `fold`, `fold_sound`, `fold_program`: constant folding, and the proof that folding
  does not change what a program does, with one exception that the code keeps on
  purpose: folding compares two string literals by their text, while a run compares
  strings by the length of their encoding, so a comparison of two different strings of
  the same length can fold to another answer than the run gives.
- `values`, `hashed_string`, `compile`, `runtime`: the values of the language, the
  meaning of programs as specification functions, and the interpreter proved to compute
  exactly that meaning while it reports each instruction to a `CompilingMetadata`,
  unless the metadata halts the run (as the game's does when it sees a request to
  cancel). Each function body runs through `stacker::maybe_grow`, so that deeply
  recursive programs do not exhaust the native stack.
- `program`, `compilation`: the record of a run (instruction counts, sleeps, printed
  text) and a run under the limits that the upgrades set.
- `unlocks`, `upgrades`, `pdcode`: which language features the upgrades unlock, the
  upgrade levels and their values, and the programs offered at each stage.
- `scenes`, `terminal`, `timers`: the decisions of the game's screens and terminal
  commands, and its timers.

`app/` is a plain terminal front end: it reads commands from standard input, keeps the
game's economy (whose amounts are floating-point numbers), and saves the game as JSON.
