# http_server_lib

The pieces of a small HTTP/1.1 server, written in Verus and verified against
their contracts.

- `src/` is the verified library:
  - `error`, `http_status`, `http_types`: status codes, reason phrases,
    versions, media types, `Accept-Charset` entries, request body data.
  - `http1::types`: tokens of a request line, URIs (authority, absolute
    path, absolute URI with its query), versions, lines read from a stream.
  - `protocol::http1`: cutting what was read into `\r\n`-terminated lines,
    reading the start line and header lines of a request, writing the head
    of a response.
  - `request`, `response`: a request head read from its lines, a response
    whose head is written once.
  - `path`, `path_regex`, `pattern`: route patterns such as `/user/:id`
    compiled to regular expressions (matching is done by the `regex` crate).
  - `json`: JSON values, their truthiness, conversions and text.
  - `server`: options from the command line and a configuration file, tasks,
    a bounded ready queue and an executor's bookkeeping.
- `app/` is the program around it: argument and file reading, TCP
  connections, polling futures, and the few conversions that need floating
  point.
- `tests/` exercises the library on concrete values.
