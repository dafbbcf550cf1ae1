//! The verified core of the game systems web frontend.

pub mod text;
pub mod game_systems_client;
pub mod i18n;
pub mod catalog_client;
pub mod config;
pub mod routes;
