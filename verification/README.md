# lambda

The core of a runtime for AWS Lambda functions, verified with Verus.

- `src/` is the library. It decides what a run does next, builds the requests that the runtime API
  takes, streams events, reads the configuration of a function, and expands the `#[lambda]`
  attribute. What the `http` and `syn` crates compute for it stands behind declared contracts.
- `app/` drives the library: it reads the environment, serialises with `serde_json`, implements
  `Stream`, and turns compiler tokens into text and back.
- `tests/` runs the library, with the outside crates linked.
