# grpc-low-latency-proxy

A gRPC proxy in front of a PKCS#11 token. It signs, verifies, encrypts and decrypts with keys that
never leave the token, and hands out public keys.

The library under `src/` is what the proxy decides and computes, written in Verus and proved
against its contracts. It performs no I/O: where the token, the queue, the clock or the network is
needed, a function says what to do next, and another takes the outcome. The program under `app/`
does those things, and nothing else.

| Module | What it holds |
| --- | --- |
| `crypto` | signing inputs, PKCS#11 mechanisms, public keys, checking signatures |
| `pkcs11` | workers and their steps, the pool's rules, token sessions, provisioning |
| `authz` | the policy, its TOML document, identities, the check of a caller |
| `resilience` | the circuit breaker and the rate limiter |
| `cache` | what is kept of a public key, and for how long |
| `grpc` | requests to jobs, and outcomes to answers |
| `telemetry`, `settings`, `token_check` | metrics, settings, and the check of a token |
| `primitives`, `status`, `text`, `wire` | what the others are written with |

What is trusted rather than proved are the calls into other crates: the cryptographic primitives,
the TOML and certificate parsers, the rate limiter's buckets, and a few functions of the standard library. Each
stands behind one function whose comment says what is claimed of it.

    grpc-low-latency-proxy               run the server
    grpc-low-latency-proxy provision     generate the demo keys
    grpc-low-latency-proxy token-check   check the token and its keys
    grpc-low-latency-proxy spike         try a token out
    grpc-low-latency-proxy hsm-ceiling   measure the token on its own
