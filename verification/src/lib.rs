//! Core logic of the realm servers (auth and channel roles): wire encoders,
//! login and character-select rules, chat/emotion/messenger decisions,
//! inventory and refine rules, and the per-process registries they rely on.
//! Every function here is verified; the sockets, timers and database live
//! in the application around it.

pub mod text;
pub mod login;
pub mod auth;
pub mod wire;
pub mod capture;
pub mod item;
pub mod belt;
pub mod chat;
pub mod locale;
pub mod movement;
pub mod entry;
pub mod random;
pub mod items;
pub mod gm;
pub mod dragon_soul;
pub mod land;
pub mod command;
pub mod emotions;
pub mod messenger;
pub mod events;
pub mod materials;
pub mod guild;
pub mod refine;
