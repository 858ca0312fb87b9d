//! The decisions behind driving windows and pointers on a Hyprland session.

pub mod capture;
pub mod commands;
pub mod desktop;
pub mod drag_laws;
pub mod error;
pub mod focus;
pub mod focus_laws;
pub mod geometry_laws;
pub mod identity;
pub mod identity_laws;
pub mod json;
pub mod listing_laws;
pub mod lookup;
pub mod monitors;
pub mod names;
pub mod pointer;
pub mod pointer_laws;
pub mod registry;
pub mod registry_laws;
pub mod session;
pub mod text;
pub mod text_laws;
pub mod visibility;
pub mod window_laws;
pub mod windows;
