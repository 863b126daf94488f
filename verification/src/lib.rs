//! The rules of a sliding, tiling window manager.

pub mod animate;
pub mod binpack;
pub mod commands;
pub mod dispatch;
pub mod display;
pub mod ecs;
pub mod events;
pub mod geometry;
pub mod handler;
pub mod layout;
pub mod lifecycle;
pub mod orphans;
pub mod pane;
pub mod platform;
pub mod reshuffle;
pub mod schedule;
pub mod sequences;
pub mod setup;
pub mod startup;
pub mod swipe;
pub mod timeout;
pub mod watchers;
