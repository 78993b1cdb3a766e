//! A paste store: short public identifiers, secret-derived edit keys,
//! authorised replacement and removal, and time-based retention.
//!
//! `PasteService` keeps pastes in memory and offers submit, retrieve,
//! replace, remove and sweep. The decisions it is built from (identifier
//! allocation, key derivation, the authorization gate, the size limit and
//! the retention rule) are public on their own, so that a front end with
//! other storage can take the same decisions.

mod error;
mod gate;
mod ident;
mod key;
mod lines;
mod render;
mod retention;
mod service;
mod store;
mod text;

pub use error::PasteError;
pub use gate::{
    authorization, authorize, byte_len, check_size, check_submission, size_check, submission_check,
    MAX_PASTE_BYTES,
};
pub use ident::{
    base62_char, base62_digit, generate_id, is_base62, is_base62_id, IdAllocator, BASE62_LEN,
    ID_LEN, MAX_ID_LEN,
};
pub use key::{
    derive_key, edit_key, hex_char, hex_lower, hex_prefix, hmac_sha256, is_lower_hex, keys_match,
    Secret, KEY_BYTES, MAC_BYTES,
};
pub use lines::{lines_of, pieces, split_lines, strip_cr};
pub use render::{
    bundled_html, bundled_syntax, escaped_line, highlightable, highlighting, is_highlightable,
    mode_for, opt_view, output_mode, rendered_view, terminal_render, Highlighter, LineHighlighter,
    OutputMode, Rendered, PLAIN_TEXT, THEME_NAME,
};
pub use retention::{expired, is_expired, DAY_SECS, RETENTION_SECS, SWEEP_INTERVAL_SECS};
pub use service::{
    lemma_edit_key_stable, lemma_remove_then_retrieve, lemma_replace_wrong_key,
    lemma_submissions_distinct, lemma_submit_then_retrieve, lemma_submitted_ids_distinct, lemma_sweep_old_and_recent, removal,
    replacement, retrieval, submitted, swept, text_view, NewPaste, PasteService, Pastes,
};
pub use store::{PasteRecord, RecordStore};
pub use text::{has_prefix, starts_with};
