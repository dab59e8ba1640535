# zero2prod

A small newsletter service: `GET /health_check` answers `200 OK`, and
`POST /subscriptions` takes an url-encoded form with the fields `email` and
`name`.

- `src/` is the verified library (Verus). `form` reads a subscription form
  out of an url-encoded body (decoding through `serde_urlencoded`) and
  `service` routes a request and decides the answer: its status and body
  (`response` builds the answers and their texts).
- `app/` is the actix-web server: it reads each request (the body only where
  `wants_body` says so), hands the library a plain `Request` and sends back
  the `Response` that `respond` chose.
- `tests/` runs the library on concrete requests.
