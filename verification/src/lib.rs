//! Game logic of Longinus: the entity component store, the menus, the
//! weapon-module grid, the enemy state machines and the tile and sprite
//! arithmetic, each with a machine-checked contract.

pub mod arith;
pub mod ecs;
pub mod f;
pub mod save;
pub mod combat;
pub mod menu;
pub mod load_map;
pub mod inventory;
pub mod enemy;
pub mod ability;
pub mod balance;
pub mod effects;
pub mod graphics;
pub mod sprite;
pub mod controls;
pub mod physics;
pub mod menu_text;
