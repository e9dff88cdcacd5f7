//! Verified core logic of the Rune plugin kit.
use vstd::prelude::*;

pub mod text;
pub mod lines;
pub mod git;
pub mod filesystem;
pub mod command;
pub mod media;
pub mod media_cmd;
pub mod audio;
pub mod image;
pub mod email;
pub mod markdown;
pub mod fetch;
pub mod sidecar;
pub mod browser;
pub mod game_engine;
pub mod figma;
pub mod fs_ops;
pub mod json;
pub mod figma_node;
pub mod figma_relay;
pub mod mhb;
pub mod args;
pub mod pdk;
pub mod catalog;
pub mod mail;

verus! {
} // verus!
