# common

Shared configuration, validation and error handling for a small set of
services (an HTTP gateway and a gRPC greeter). The logic that decides
outcomes is proved against contracts in `src/`; the parts that touch files,
the environment, the network or global state live in `app/`.

## Layout

- `src/validation.rs`: validation results as a tree of failed fields, their
  rendering as text, and the rule checks (length, range, URL) that call the
  `validator` crate.
- `src/configuration/`: service, logging and server settings and their
  rules; the loading plan (which sources are merged, in which order), the
  choice of the configuration directory, the reading of secret files, and
  what a failed load or validation answers.
- `src/error/`: the shared error, the application-wide error, gRPC codes and
  statuses, HTTP status mapping and the reporting of chains of causes.
- `src/gateway/`, `src/greeter/`: the two services' configurations, the
  gateway's error answers and reply handling, and the greeter's greetings.
- `src/bridge.rs`: which conversions an error enum exposes to the enums that
  wrap it.
- `app/lib.rs`: serde copies of the configuration types, merging with
  figment, directory reading, logging setup with `tracing-subscriber`,
  conversions from `tonic` and `std` errors, and axum responses.
- `tests/`: scenario tests of the library.
