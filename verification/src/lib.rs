//! Verified core of a central limit order book whose orders are partially
//! fillable swap (SWAPP) notes: the fill arithmetic, the SWAPP note layout,
//! the matching of two orders, the choice of matches in a cycle, the depth
//! chart, and the text forms that the order store and the HTTP interface use.

pub mod api;
pub mod assets;
pub mod contract_notes;
pub mod depth;
pub mod engine;
pub mod matching;
pub mod note_codec;
pub mod pricing;
pub mod setup;
pub mod status;
pub mod swap_math;
pub mod swapp_note;
pub mod tags;

pub use matching::{try_match_swapp_notes, MatchedSwap};
pub use status::SwapNoteStatus;
pub use swap_math::compute_partial_swapp;
pub use swapp_note::{creator_of, decompose_swapp_note, get_p2id_serial_num, SwapOrder};
