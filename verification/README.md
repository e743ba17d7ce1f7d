# rusoto_request

The request layer of an AWS client. A signed request becomes an HTTP request, or
is refused with a reason; what comes back becomes a response, or an error.

* `src/` is the library, verified with Verus. Its contracts speak of the header
  fields of `http`, the buffers of `bytes` and the errors of `hyper` and
  `tokio-timer` through a few trusted wrappers, each with the function that it
  calls named above it.
* `app/` puts hyper, its timers and its TLS connector around the library.
* `tests/` runs the library with the crates that it calls.
