# ad_engine

The decision logic of an advertising engine, verified with Verus.

`src/` is the library. Each public function states its result in its
contract, over spec functions on sequences, integers and the types' fields:

- `moderation` — detection, masking and refusal of abusive words:
  look-alike substitution, a Levenshtein distance counted over byte
  lengths, masking of words within tolerance of a listed word with their
  surrounding punctuation kept, and the refusal that names the first
  abusive word;
- `ads` — targeting, impression limits and earlier views that decide which
  campaigns may be shown to a client;
- `stats` — daily counters, their aggregation over several campaigns and
  the filling of days without events;
- `campaigns` — validation of campaign data, frozen fields of started
  campaigns, paging, image limits;
- `people` — registration data of advertisers, clients and users;
- `gpt`, `location`, `metrics`, `config`, `error`, `services`, `usecase` —
  prompts, geocoding answers, metric updates, configuration values, error
  messages and the use cases' own decisions;
- `text` — character-level helpers shared by the others.

Public proof functions whose names begin with `law_` state properties that
span several calls or all inputs.

`app/` holds what Verus does not check: the database and cache access,
HTTP clients, the metrics registry, logging, serde shapes and the
floating-point scoring of campaigns. It calls the library for every
decision.

`tests/` runs the library on concrete values.
