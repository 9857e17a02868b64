# rulatro

The rules and interface logic of a poker-hand roguelike, written in Verus: the functions in
`src/` are proved against their contracts, apart from a few marked wrappers
(`#[verifier::external_body]`) around calls into `std` and `rand`.

- `src/cards.rs`, `hand.rs`, `deck.rs`, `inventory.rs`, `run.rs`, `config.rs`, `content.rs`,
  `effects.rs`, `op_names.rs`, `effect_text.rs`, `modding.rs`, `rng.rs`: cards and poker hands,
  the draw pile, the player's inventory, rule tables, content picks, effect vocabulary (with the
  proof that every operation's snake-case name reads back as it) and effect texts, mod hook
  patches and the seeded random generator.
- `src/autoplay.rs`, `candidates.rs`: the autoplayer's action vocabulary, objective checks,
  deduplication and ranking of actions, the legal actions of a state and the short lists of
  plays, discards, pack picks and consumable uses it tries.
- `src/console.rs`, `parse.rs`, `text.rs`, `labels.rs`, `hints.rs`, `edits.rs`, `options.rs`,
  `help.rs`: the command line — line editing, history, tab completion, menus, prompts, argument
  and command parsing, locale choice, hand selection and edits, localized labels, hints and
  the command help.
- `tests/`: tests of the library on concrete values.
- `app/`: the terminal program around the library (terminal mode, files, environment).
