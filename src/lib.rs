//! Per-frame orchestration of a falling-block puzzle game: the event inbox,
//! the timer queue, the search gate, spin ranking, the frame-rate counter,
//! persisted settings and the per-tick decisions of the frame scheduler.

pub mod config;
pub mod events;
pub mod fps;
pub mod scheduler;
pub mod search_gate;
pub mod spin_ranking;
pub mod timer_queue;
