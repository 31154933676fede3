//! A filtering layer placed in front of a filesystem provider: given a
//! requested path, it decides whether the request is permitted, and whether a
//! directory listing must additionally be trimmed of hidden entries (names
//! beginning with `.`). The decision rules are pure and fully verified; the
//! surrounding protocol plumbing performs the actual I/O according to the
//! decisions made here.

use vstd::prelude::*;

pub mod path;
pub mod provider;
