# bilibili-api-rs

A library for the "GET" web APIs of bilibili, verified with Verus.

- `src/` is the verified library: a JSON value of its own (`json`), lodash-like
  reads by paths (`lodash`, `path_lodash`), the workbench of a client and its
  session state (`bench`, `cookies`), WBI query signing and its salt (`wbi`),
  request builders over the API tables (`api`, `api_info`), answer caches
  (`cache`), errors (`error`), answer checking (`net`), session credentials
  (`cred`) and tagged request events (`plugin`). Outside crates (md5, regex,
  murmur3, im, tokio, chrono) are called through small trusted wrappers
  whose contracts say what their documentation promises.
- `app/` is the network side: HTTP requests with reqwest, the API tables read
  from disk, the answer cache shared between tasks, conversion to and from
  `serde_json::Value`, the fresh session id (uuid), and the async clients.
- `tests/` runs the library with the real outside crates.
