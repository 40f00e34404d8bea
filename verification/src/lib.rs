//! The verified core of a small arcade game in the manner of Asteroids.
//!
//! The library holds what the game decides: which objects exist and under
//! which identifiers, what a frame does in which order, which pairs of
//! objects are tested for contact and what a contact does to each kind of
//! object, how lives, score and waves go, and how lines end up as pixels.
//!
//! What the game measures is left to the caller. The numeric part of an
//! object (its position, velocity, scale, rotation, outline and timers) is a
//! type parameter `B` that the library carries from spawn to destroy and
//! never reads. Where a decision hangs on a measurement, the caller hands in
//! the outcome (a lifetime is over, a cooldown has passed) or a function
//! that measures on demand (do these two bodies touch, is this place
//! clear), and the contracts say what follows for every outcome.
//!
//! A frame of a scene runs through [`scene::Scene::update_entity`]: every
//! object is updated and its events are gathered, spawn and destroy
//! requests are applied, the objects are tested pair by pair, and each
//! object of a touching pair is told the layer of the other. The rules of
//! the game proper are in [`game_scene`].

pub mod app_handler;
pub mod chance;
pub mod config;
pub mod drawers;
pub mod entity;
pub mod events;
pub mod game;
pub mod game_scene;
pub mod ids;
pub mod input;
pub mod layers;
pub mod loaders;
pub mod menu;
pub mod motion;
pub mod scene;
pub mod screen;
pub mod segments;
pub mod solver;
pub mod switch;
pub mod test_scene;
pub mod web;
