# ya_gcp

A client library for Google Cloud Platform services (Pub/Sub, Bigtable, Cloud Storage),
whose decision logic is verified with Verus.

- `src/` is the verified library: gRPC status codes and status-code sets, retry predicates and
  retry budgets, Pub/Sub resource names, publish batching with its size limits and encoded
  lengths, acknowledgement batching, the reconnection state of streaming pulls, Bigtable
  request builders, row sets and their restriction on retries, row reassembly from chunks,
  table administration requests, Cloud Storage naming rules, the authorization header,
  the choice of credentials, and emulator settings.
- `app/` is the runtime around it: conversions to tonic and http types, configuration
  parsing, randomized exponential backoff, credential loading with yup-oauth2, the
  authorizing gRPC service, the Cloud Storage client and the emulator processes.
- `tests/` exercises the library on concrete values.
