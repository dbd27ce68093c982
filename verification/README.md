# urlvibe_rs

The backend of a private YouTube library: users sign up and log in, save
videos under playlist labels, mark favorites and rename labels.

- `src/` is the verified library (Verus). It holds every rule of the API:
  identifier normalization, signup/login checks, password hashing and
  checking (Argon2), session tokens (HS256 JWT) and cookies, request
  authentication, YouTube URL normalization, item and label rules,
  configuration from the environment, and the mapping of errors to HTTP
  answers.
  - `text` — whitespace trimming, ASCII lowercasing, UTF-8 lengths.
  - `errors` — `AppError`, its status code and client message.
  - `models` — user and item records.
  - `address` — which hosts make a socket address with a port.
  - `config` — `AppConfig::from_env` over the environment's values.
  - `auth` — identifiers, passwords, tokens, cookies, authentication.
  - `youtube` — video ids from URLs.
  - `routes` — the checks and outcomes of each request.
- `app/` is the Axum/SQLx service around it: it reads the environment,
  talks to the database, routes requests, and turns the library's values
  into JSON bodies and cookies.
- `tests/` runs the library with the real outside crates.
