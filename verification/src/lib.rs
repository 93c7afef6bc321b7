//! Verified core of the ERQoL Elden Ring quality-of-life mod.

pub mod anti_farm_shop;
pub mod auto_pickup;
pub mod bytes;
pub mod config;
pub mod crash;
pub mod debug_points;
pub mod dungeon_warp;
pub mod enter_state;
pub mod esd;
pub mod flask_confirm;
pub mod heavy_door;
pub mod hks;
pub mod hooks;
pub mod hp_bar_posture;
pub mod level_up;
pub mod log;
pub mod map_icons;
pub mod map_in_combat;
pub mod memory;
pub mod menu;
pub mod merchant;
pub mod messages;
pub mod mirror;
pub mod postures;
pub mod roundtable;
pub mod runes;
pub mod scan;
pub mod settings;
pub mod settings_menu;
pub mod silly;
pub mod speffects;
pub mod spirit_summon;
pub mod splice;
pub mod text;
pub mod toml_text;
