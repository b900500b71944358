//! A fixed-size worker pool, as a verified dispatch state machine.
//!
//! `dispatch` holds the job queue, the workers' states and the two-phase
//! shutdown; a driver runs threads against it and performs the actions it
//! hands out. `schedule` states what holds of every run of a pool, and
//! `http` holds the request handling of the server that feeds the pool.
pub mod dispatch;
pub mod http;
pub mod lemmas;
pub mod schedule;
