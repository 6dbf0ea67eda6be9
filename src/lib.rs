//! A string handle that carries validated UTF-8 bytes together with an
//! ownership tag: either borrowed from a caller-held buffer, or owned by the
//! handle itself and released with it.

pub mod handle;
pub mod utf8;

pub use handle::{ustr_cat, ustr_chars, ustr_free, ustr_lenb, ustr_lenc, ustr_new, Ustr};
pub use utf8::{count_scalars, is_valid_utf8, scalar_width};
