# ohmywordle

The game logic of a five-letter word guessing game, verified with Verus.

- `src/game.rs` — tiles, and the scoring of a guess against the answer.
- `src/hard_mode.rs` — the hard-mode rule: revealed clues must be reused.
- `src/stats.rs` — the player's record of games, wins and streaks.
- `src/share.rs`, `src/page.rs` — shareable links (URL-safe base64 of the
  word), the install banner, the challenge-link box.
- `src/keyboard.rs` — what the on-screen keyboard knows of each letter.
- `src/words.rs` — the word list and random answers.
- `src/session.rs` — the state machine of a game session: one step per
  message, with the outside work it asks for listed as effects.
- `src/text.rs` — string helpers and case mapping.
- `app/` — the browser front end (Yew): storage, timers, clipboard, HTML.
