//! Duty-time accounting for officers in a chat guild: a roster of officers kept
//! in step with a role, a tracker that turns voice-channel moves into patrol
//! sessions, the rows those sessions are stored as, and the queries and text
//! that report accumulated time.
pub mod channels;
pub mod clock;
pub mod config;
pub mod duration;
pub mod listing;
pub mod query;
pub mod roles;
pub mod roster;
pub mod store;
pub mod tracker;
