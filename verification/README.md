# larkriver

A chat bot for Feishu groups that deals Texas hold'em (full and short deck) and
runs werewolf games for nine to twelve, with AI players beside people.

- `src/` is the library, verified with Verus. `poker` holds cards, hand ranking
  and win rates; `game` one hold'em table; `werewolf` one werewolf table, what
  each player may see, what an AI player is asked and what its answer does;
  `bot` commands, clicks, tables and cards; `feishu` events, JSON and card
  elements; `llm`, `config`, `server` and `storage` the rules of those edges.
- `app/` is the program: HTTP, the model, the store and the loops around the
  library.
- `tests/` run the library on concrete values.

Every operation on a table is stated over a view of that table (`GameView`,
`WolfGameView`); the laws that relate several operations are public proof functions
in `game/laws.rs`, `werewolf/laws.rs` and beside the code they speak of.
