//! A turn-oriented simulation scheduler for a grid world.
//!
//! Durative actions are proposed, committed to one entity at a time, advanced
//! tick by tick and resolved into an effect, while a runner switches between
//! a frame-paced idle mode and an unpaced mode that drains committed ticks.

pub mod actions;
pub mod crossterm_plugin;
pub mod game;
pub mod levels_plugin;
pub mod objects;
pub mod player_plugin;
pub mod point;
pub mod store;
pub mod world;
