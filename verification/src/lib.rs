//! Core of a keystroke-driven picker: a fixed candidate store is scored and
//! ranked as the user types, the ranked order is published through a stable
//! index projection, and a focus controller tracks one selected position.

pub mod apps_mode;
pub mod echo_mode;
pub mod focus;
pub mod index_list;
pub mod launcher_item;
pub mod menu_item_model;
pub mod rank;
pub mod strings;
