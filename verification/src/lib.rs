//! Wide (16-bit code unit) nul-terminated string buffers.
//!
//! The crate supplies two cooperating types: [`WCStr`], a borrowed read-only
//! view of a run of non-nul code units followed by exactly one trailing nul,
//! and [`WCString`], an owned growable buffer maintaining the same invariant.
//! Fallible constructors and append operations report invariant violations
//! through [`NulError`] and [`NoNulError`], and an owned buffer can be
//! consumed by [`Split`] to cut it into delimiter-separated segments.

mod error;
mod model;
mod render;
mod split;
mod utf16;
mod wcstr;
mod wcstring;

pub use error::nul;
pub use error::no_nul;
pub use error::NoNulError;
pub use error::NulError;
pub use model::first_index;
pub use model::has_value;
pub use model::is_prefix;
pub use model::lemma_first_index;
pub use model::lemma_first_index_unique;
pub use model::lemma_from_vec_round_trip;
pub use model::lemma_truncate_at_first_nul;
pub use model::nul_free;
pub use model::wf_units;
pub use render::debug_escape_unit;
pub use render::debug_render;
pub use render::escaped_default;
pub use render::hex_digit;
pub use render::hex_upper;
pub use split::new;
pub use split::Split;
pub use utf16::combine_surrogates;
pub use utf16::decode_utf16_lossy;
pub use utf16::encode_utf16;
pub use utf16::encode_utf16_char;
pub use utf16::encode_wide;
pub use utf16::is_high_surrogate;
pub use utf16::is_low_surrogate;
pub use utf16::is_surrogate;
pub use utf16::is_valid_utf16;
pub use utf16::lemma_encode_utf16_snoc;
pub use wcstr::WCStr;
pub use wcstring::WCString;
