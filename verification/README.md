# ascent

A small networked climbing game: players jump up a level of platforms,
grab and throw stones and each other, dodge cannon shots, and race to the
goal line.

- `src/` is the verified library (Verus): the rules of the game on
  integers, booleans, strings and identifiers — keyboard state and key
  events (`input`), player controls and counters (`motion`), surface
  contacts and polygon outlines (`lines`), what a player may grab (`hold`),
  cannon, shot and stone timers (`timers`), entity roles (`entity`), scene
  flow and screens (`scene`), level loading plans (`levels`), fixed-rate
  stepping and client sync (`frame`), the server's client registry
  (`session`), identifier allocation (`ids`) and entity table updates
  (`table`). Each public function has a contract; laws of the game are
  stated and proved as public proof functions.
- `app/` is the program around it: window, drawing, keyboard and mouse,
  UDP messages (serde and bincode), and the floating-point physics.
- `tests/` runs the library on concrete cases.
