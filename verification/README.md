# lcvgc engine

The engine of a live-coding tool for MIDI sequences: definitions written in
a text DSL (devices, instruments, drum kits, clips, scenes, sessions,
variables, tempo) are evaluated into a registry, clips are compiled into
timed MIDI events, and scenes of looping clips are played tick by tick.

The library in `src/` is verified with Verus: every public function states
what it returns or changes, and the properties that span several
functions stand as proof functions (mostly in `laws.rs`).

## Layout of `src/`

- `ast`, `domain`, `midi`: the definition blocks, channels and note names,
  MIDI messages.
- `registry`, `named_map`, `scope`, `resolver`, `evaluation`: registering
  definitions, variable scopes and resolving variable references.
- `compiler` and the modules it draws on (`pitched`, `layers`, `emit`,
  `arpeggio`, `cells`, `cc`, `drum`, `arrange`, `sorting`, `arith`): clip
  compilation; `voicing` proves that compiled clips carry channel
  messages only.
- `player`, `scene_runner`, `scene_build`, `chance`: clip and scene
  players, per-loop resolution of shuffles and probabilities, building a
  scene's player.
- `control`, `commands`, `run`, `transitions`, `evaluator`: playback
  commands, edits while playing, what comes when a scene loop ends (the
  repeat and session state machine), and the evaluator that ties them
  together.
- `step`: one tick of playback, from the evaluator to the messages the
  driver sends, in order (with the commit of staged clip swaps on the
  four-bar grid), and what follows once they went out.
- `clock`, `timing`: tempo and tick arithmetic, and the timing decisions
  of the playback driver.
- `imports`, `walk`, `connections`, `error`, `text`: include
  bookkeeping, the evaluation of a file with its includes and of parsed
  sources (in full, as a preload, or filling an empty registry), device
  connection failures, errors and text helpers.
- `laws`: properties of the library as a whole.

`app/` holds the playback driver that runs the library's step on a timer
and sends its messages to MIDI outputs, and error types with their
`Display`.
