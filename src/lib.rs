//! Adversarial invocations of programs that publish an interface description.
//!
//! Descriptions are read into an instruction model (`json`, `specs`,
//! `model`); every instruction yields a baseline case and structurally
//! mutated cases (`cases`); each case gets concrete accounts, including
//! program-derived addresses (`resolve`), and zero-valued call data
//! (`encode`); the invocation is then built and its outcome judged
//! against the case's expectation (`execute`), and a run is summarized
//! (`report`). `scan` lists the derived accounts that descriptions declare.
pub mod json;
pub mod model;
pub mod specs;
pub mod cases;
pub mod encode;
pub mod resolve;
pub mod execute;
pub mod report;
pub mod scan;
