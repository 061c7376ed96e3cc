//! Periodic activity: beats, their rate limit, and what they hold back.
pub mod beat_laws;
pub mod brainstem;
pub mod proactive;
