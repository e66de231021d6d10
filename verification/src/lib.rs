//! Verified core of a desktop music player: playlist navigation, DSD/DoP
//! framing, tag parsing, output-device selection policy and related rules.
#![allow(unused_imports)]

use vstd::prelude::*;

pub mod audio;
pub mod cover;
pub mod display;
pub mod hashing;
pub mod json;
pub mod meta;
pub mod playlist;
pub mod queue;
pub mod report;
pub mod settings;
pub mod table;
pub mod text;
pub mod track_list;

verus! {

} // verus!
