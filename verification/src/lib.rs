//! A judge for Rust submissions.
//!
//! A submission is compiled once and run against every case of a Trial package;
//! what it printed is compared with what was expected, and the outcome is a
//! verdict with a manifest that says how it came about. Three rules run through
//! everything: compiling and executing are security domains of their own, and
//! untrusted code never reaches a compiler or a sandbox that is not qualified for
//! it; a failure of the judge is never reported as the submitter's mistake; and
//! hidden test material never reaches who may not have it.
//!
//! | Modules | What they hold |
//! | --- | --- |
//! | [`verdict`], [`error`], [`limits`] | verdicts, how failures map to them, resource bounds |
//! | [`digest`], [`text`] | content identifiers, strings |
//! | [`problem_format`], [`protocol`] | Trial packages; jobs, manifests and summaries |
//! | [`encoding`] | why a manifest's encoding tells which manifest it is |
//! | [`checker`], [`grader`] | comparing output; grading a module against a package |
//! | [`backend`], [`sandbox`], [`native`] | running a module |
//! | [`compile`], [`compile_container`] | compiling a submission |
//! | [`cache`], [`artifacts`] | content-addressed storage |
//! | [`pipeline`], [`worker`] | judging one job; what a worker decides around that |
//! | [`queue`], [`routes`] | the broker's queue, and what it answers |
//!
//! Nothing here touches a file, a socket, a clock or a process. Where one is
//! needed, a function takes what was read, or says what is to be done, and the
//! caller does the rest.

pub mod artifacts;
pub mod backend;
pub mod cache;
pub mod checker;
pub mod compile;
pub mod compile_container;
pub mod digest;
pub mod encoding;
pub mod error;
pub mod grader;
pub mod limits;
pub mod native;
pub mod pipeline;
pub mod problem_format;
pub mod protocol;
pub mod queue;
pub mod routes;
pub mod sandbox;
pub mod text;
pub mod verdict;
pub mod worker;
