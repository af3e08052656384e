# bookparsers

Verified core of a set of bookmaker line parsers (Marathon, Mbet, Melbet,
Olimp, Olimpbet, Pari, Sportbet, Liga Stavok, Tennisi and the REST
parsers), written in Verus.

- `src/` is the library. Each parser's reading of its feed (JSON
  documents, HTML table rows, headless-browser snapshots) is a verified
  function whose contract states, over spec functions, exactly which events
  and prices come out. The proxy pool, the parser registry with its coverage and static
  health reports, the Liga Stavok
  session bootstrap rules and the Melbet route sweep decisions are verified
  in the same way, with their laws as proof functions.
- Calls into outside crates (chrono, regex, scraper, serde_json, flate2,
  uuid, rand, reqwest's `Url`) stand behind small trusted wrappers whose
  contracts say what the crates' sources show.
- `app/` is the network and floating-point glue: it fetches pages and hands their
  bytes to the library, reads number texts as `f64` bits for the library,
  and runs the fetch loops.
- `tests/` holds the tests.
