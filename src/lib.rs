//! Line editing for terminal programs: an editable line with a cursor, a
//! bounded history, a key decoder and a renderer that computes the escape
//! sequences which redraw the prompt and the line.

use vstd::prelude::*;

mod text;
pub mod buffer;
pub mod history;
pub mod render;
pub mod config;
pub mod keys;
pub mod editor;
pub mod terminal;

pub use buffer::LineBuffer;
pub use config::{
    linenoise_history_add, linenoise_history_set_max_len, linenoise_mask_mode_disable,
    linenoise_mask_mode_enable, linenoise_set_completion_callback, linenoise_set_hints_callback,
    linenoise_set_multi_line, Config,
};
pub use editor::{CompletionState, Editor, Effect, Pending};
pub use history::{History, DEFAULT_HISTORY_MAX_LEN};
pub use keys::EditAction;
pub use render::RowLayout;

verus! {

/// Longest line the editor keeps, counting a terminating slot: a line holds
/// at most `MAX_LINE - 1` characters.
pub const MAX_LINE: usize = 4096;

} // verus!
