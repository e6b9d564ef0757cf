# mercenary_board

A contract board for tabletop matches: hosts post contracts, challengers
accept and withdraw, hosts hand over command or scrub a contract, anyone
comments, and contracts expire two hours after their match.

- `src/` is the library, verified with Verus. `text` holds the character
  level toolkit (search, split, replace, join, trim, order, decimal
  numerals); `force` shows a force roster at an intel level; `contract`
  holds the contract type and its transitions; `posting` builds a contract
  from the post form; `render` and `templates` produce the HTML cards and
  board page; `pages` holds the small pages; `expiry` decides the sweep;
  `clock` reads the time; `laws` states properties that span operations.
- `app/` is the web server (axum routes, cookies, the sled store, the
  periodic sweep), which calls the library.
- `tests/` runs the library on concrete values.
