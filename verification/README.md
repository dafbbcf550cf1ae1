# game_systems_web

The verified core of the SweetRPG game systems web frontend (browse, detail and add-new pages
over `game-systems-api`, with a publisher picker backed by `catalog-api`).

- `src/` is the library, verified with Verus:
  - `text.rs`: whitespace trimming, separators, decimal numbers, form-urlencoding;
  - `config.rs`: the runtime configuration from environment values;
  - `i18n.rs`: locale resolution and the translation catalog with its fallback rules;
  - `game_systems_client.rs`: the API's data, request URLs and parameters, payload paging and
    the mapping of error statuses;
  - `catalog_client.rs`: the fail-open publisher search;
  - `routes/systems.rs`: what the three pages show and where requests go next.
- `app/` is the server around it: HTTP clients, handlers, templates, configuration reading.
- `tests/` runs the library on concrete values.
