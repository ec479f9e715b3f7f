# cors

Cross-origin resource sharing for an object store, verified with Verus.

A bucket carries a list of CORS rules. The library finds the first rule that allows a request,
answers preflight (`OPTIONS`) requests, and sets the CORS headers of a response.

- `src/rules.rs`: rules, patterns with a `*`, and which requests a rule allows
- `src/grant.rs`: the headers by which a response grants access
- `src/preflight.rs`: which rule is for a request, and the answers to `OPTIONS` requests
- `src/headers.rs`: what is relied on of the `http` crate, and reading and setting headers
- `src/text.rs`: comparing, splitting, trimming and joining text
- `src/message.rs`, `src/error.rs`: requests, responses and errors
- `src/laws/`: what holds of the library as a whole
- `app/`: the same functions on hyper's requests and responses
