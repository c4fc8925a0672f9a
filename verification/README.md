# bevy_game

The rules of a small strategy game, a war chef's campaign of battles with
dialogues between them, written as a library whose behaviour is stated in
contracts and proved with Verus.

## Layout

- `src/` is the library: the dialogue scripts (`articy`, `articy_graph`,
  `plain_articy`, `dialogue`, `vars`, `text`), the campaign (`game_state`,
  `quest`, `planning`, `items`, `units`), battles (`battle`, `unit`, `team`,
  `flags`) and the screens around them (`app_state`, `clickable`, `cutscene`,
  `sfx`). Laws that span several functions are public proof functions whose
  names start with `law_`.
- `tests/` runs the library on concrete values.
- `app/` is a text front end: it reads the dialogue project's JSON export,
  plays dialogues against a campaign, and reads and writes the battle
  sandbox's RON configuration.

Drawing, sound, animation and everything measured in real numbers (positions,
timers, volumes) belong to the game engine and are not part of this library.

## Tables keyed by name

Dialogues, dialogue nodes and global variables are looked up by name. They are
kept in `Vec`s of pairs whose keys are unique (an invariant each operation
keeps), searched from the front, rather than in a `HashMap<String, _>`. vstd
specifies `HashMap` lookups only for key types it knows to hash and compare
consistently (integers, `bool` and boxes of them); `String` is not among them,
so no lookup in such a map could be proved.

## Randomness

Dice rolls (friendly fire, blindness, sickness, the order in which hits land)
come from `rand`. The functions that roll state what holds whatever the roll,
and each has a companion that takes the roll as an argument and states the
result exactly.
