# turborepo-cfworkers

A self-hosted Turborepo remote cache for Cloudflare Workers, with its request
rules verified in Verus.

- `src/` is the verified library: which artifact hashes are accepted and the
  bucket key of each (`artifacts`), what an upload stores and what a download
  serves back, Bearer authorization (`auth`), cache usage events (`events`),
  the fixed replies (`responses`), header lookup (`fields`), header text and
  decimal numbers (`text`) and the statuses answered (`status`).
- `app/` is the worker around it: the axum router and OpenAPI document, the
  R2 bucket, Analytics Engine, the secret store and logging. It hands the
  library the request's headers and the bucket's answers as plain values and
  acts on what the library decides.
- `tests/` runs the library on concrete requests.
