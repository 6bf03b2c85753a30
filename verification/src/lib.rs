//! A plotline manager: entities, the events they take part in and the
//! experiences those events cause on them, ordered in time by an interval
//! search tree.

pub mod cli;
pub mod error;
pub mod interaction;
pub mod interval;
pub mod period;
pub mod name;
pub mod id;
pub mod entity;
pub mod event;
pub mod experience;
pub mod moment;
