# Pianzo

Pianzo plays note sheets (virtualpiano.net style: tokens separated by spaces,
`[..]` chords, capitals played with Shift) as key presses in the active
window, and can test a melody as sound.

- `src/` is the verified library (Verus): the sheet parser and pitches, the
  importer's page parsing, the melody list and edit window, key handling and
  the event-loop decisions, the key player's run, global hotkeys, window
  rules, notifications, the karaoke view and status texts.
- `tests/` runs the library on concrete inputs.
- `app/` is the terminal program around it: drawing, threads, files,
  network, sound and key synthesis.

The list of running process names is kept in a `Vec` whose names are
distinct and sorted by their lowercase form (stated by `distinct_sorted`),
where a set of strings would otherwise collect them: vstd's specification
of `HashSet` applies to key types known to obey its hashing model (integers,
`bool`), and for `String` keys that could only be assumed, so the
distinctness is stated and proved on the vector instead.
