# boxbreaker

A trading-card catalogue, price book, collection tracker and card scanner
for Pokémon and Magic: The Gathering.

- `src/` is the library, verified with Verus: the card catalogue and its
  searches, the collection's bookkeeping, price records, the conversion of
  the PokémonTCG and Scryfall API records into catalogue cards, perceptual
  image hashes and the scan index, the integer samples a card photo is
  graded on, the URLs of the price services, and the
  card browser's state machine (`ui`).  Contracts state each public
  function's result; what the `image` crate computes (an encoded image's
  grey thumbnail and grey version) is named rather than spelled out, and the
  current time is passed in by the caller.  The laws that relate several
  functions are public proof functions beside them.
- `tests/` runs the library on concrete values.
- `app/` is the command-line program around it: downloads, files, the
  interactive browser loop, and the parts that compute in floating point
  (dollar amounts, condition grading).
