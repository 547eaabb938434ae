//! Reconstructs the logical items (photos, videos, tracks) that recording
//! devices leave on a card, from a snapshot of the card's files.
pub mod path;
pub mod helpers;
pub mod gopro_hero_generic_1;
pub mod sony_ilcem4_1;
pub mod generic_single_file_items;
pub mod gnss_tracker_generic;
pub mod handler;
