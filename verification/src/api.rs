//! What a transport layer calls: the engine's operations with their
//! refusals turned into status codes and texts for the client.

pub mod handlers;
