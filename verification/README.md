# rustly_judge

A verified judge for Rust submissions: the rules by which a submission is
compiled, run, graded and reported, written in Verus.

## Layout

- `src/` is the library, and Verus verifies all of it. Contracts say what its
  functions do, and laws, beside them, what follows of the functions together.
- `tests/` runs the library, in part under a real Wasmtime engine.
- `app/` is the program around it: a worker (`run-local`, `seed`, `serve`) and a
  standalone `broker`. It reads files, talks HTTP, drives Wasmtime, Docker and
  the clock, and hands what it finds to the library.

## What is proved

- A submission is compiled and run only by backends that are qualified for
  untrusted code; no other is ever asked to.
- A failure of the judge never becomes a compile error or a wrong answer, and a
  system fault dominates whatever else a grading found.
- Hidden cases are neither offered to, kept by, nor reported by a worker that is
  not trusted, and a redacted manifest does not depend on what is hidden.
- What is read from a cache or an artifact source hashes to what was asked for;
  a corrupt entry is evicted and rebuilt, and never changes a verdict.
- A queue loses no job, hands each out in order, takes back expired leases, and
  records a result only from the worker that holds the lease.
- No two manifests share a canonical encoding, so what is hashed says which
  manifest it is.
- A sandbox that hit a bound says which, and never hands on more of stdout and
  stderr together than the output bound allows.

## What is trusted

BLAKE3 (`blake3::hash`), JSON string escaping (`serde_json::to_string`), and from
the standard library `String::push`, UTF-8 validation and lossy decoding, and the
`Debug` forms of strings and paths. Each is wrapped once, next to a comment that
says what is claimed of it.

Floating-point numbers are read and compared in `app/`; the library decides on
what the comparison found.
