//! An in-memory task engine. Clients submit short-lived tasks; the engine
//! stores them, moves each through a fixed lifecycle, keeps counters in
//! step with every transition, and announces every change to live
//! observers. Nothing is persisted.
//!
//! * [`models`] holds the task with its lifecycle and the counters.
//! * [`bus`] is the notification bus on which changes are announced.
//! * [`processor`] is the engine: create, get, list, cancel, statistics,
//!   subscribe, and the two steps by which a worker starts and ends a task.
//! * [`dispatch`] ranks the work of one dispatch tick.
//! * [`api::handlers`] turns the engine's refusals into answers for a
//!   client.
//! * [`state`], [`census`] and [`story`] describe the engine as
//!   mathematics, with its invariant; [`history`] proves what holds over a
//!   whole life of the engine.
//! * [`runtime`] is the unproved contact with the clock, with chance and
//!   with the channel.
//!
//! The engine is a plain value that one caller at a time may change. To
//! share it between request handlers, a dispatcher and its workers, put it
//! behind a lock.

pub mod api;
pub mod bus;
pub mod census;
pub mod dispatch;
pub mod history;
pub mod models;
pub mod processor;
pub mod runtime;
pub mod state;
pub mod story;
