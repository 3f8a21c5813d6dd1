//! Room coordination for live meetings: sessions join named rooms, exchange
//! ephemeral signals and run polls whose lifecycle is proved here.
pub mod coordinator;
pub mod decoder;
pub mod event;
pub mod json;
pub mod poll;
pub mod session;
