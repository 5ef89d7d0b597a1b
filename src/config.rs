//! Settings shared by the editing sessions of a program: display modes, the
//! history, and the completion and hint producers.

use vstd::prelude::*;
use crate::history::History;

verus! {

/// Settings that outlive a single editing session. `C` is the type of the
/// completion producer and `H` that of the hint producer; the library only
/// stores them and tells whether one is set.
pub struct Config<C, H> {
    /// Lines wrap over several rows instead of scrolling within one.
    pub multi_line: bool,
    /// The line is drawn as `*`s, for passwords.
    pub mask_mode: bool,
    /// Accepted lines.
    pub history: History,
    /// Producer of completions.
    pub completion_callback: Option<C>,
    /// Producer of hints.
    pub hints_callback: Option<H>,
}

impl<C, H> Config<C, H> {
    pub open spec fn wf(&self) -> bool {
        self.history.wf()
    }

    /// Single-line mode, no masking, an empty history and no producers.
    pub fn new() -> (r: Self)
        ensures
            r.wf(),
            !r.multi_line,
            !r.mask_mode,
            r.history.lines() == Seq::<Seq<char>>::empty(),
            r.history.max_len == crate::history::DEFAULT_HISTORY_MAX_LEN,
            r.completion_callback is None,
            r.hints_callback is None,
    {
        Config {
            multi_line: false,
            mask_mode: false,
            history: History::new(),
            completion_callback: None,
            hints_callback: None,
        }
    }
}

/// Switches multi-line mode on or off.
pub fn linenoise_set_multi_line<C, H>(cfg: &mut Config<C, H>, ml: bool)
    ensures
        *final(cfg) == (Config { multi_line: ml, ..*old(cfg) }),
{
    cfg.multi_line = ml;
}

/// Draws the line as `*`s from now on.
pub fn linenoise_mask_mode_enable<C, H>(cfg: &mut Config<C, H>)
    ensures
        *final(cfg) == (Config { mask_mode: true, ..*old(cfg) }),
{
    cfg.mask_mode = true;
}

/// Draws the line as typed from now on.
pub fn linenoise_mask_mode_disable<C, H>(cfg: &mut Config<C, H>)
    ensures
        *final(cfg) == (Config { mask_mode: false, ..*old(cfg) }),
{
    cfg.mask_mode = false;
}

/// Sets the producer of completions.
pub fn linenoise_set_completion_callback<C, H>(cfg: &mut Config<C, H>, cb: C)
    ensures
        *final(cfg) == (Config { completion_callback: Some(cb), ..*old(cfg) }),
{
    cfg.completion_callback = Some(cb);
}

/// Sets the producer of hints.
pub fn linenoise_set_hints_callback<C, H>(cfg: &mut Config<C, H>, cb: H)
    ensures
        *final(cfg) == (Config { hints_callback: Some(cb), ..*old(cfg) }),
{
    cfg.hints_callback = Some(cb);
}

/// Adds `line` to the shared history; see `History::add`.
pub fn linenoise_history_add<C, H>(cfg: &mut Config<C, H>, line: &str) -> (r: bool)
    requires
        old(cfg).wf(),
    ensures
        final(cfg).wf(),
        r == crate::history::accepts(old(cfg).history.lines(), old(cfg).history.max_len as nat, line@),
        final(cfg).history.lines() == crate::history::added(
            old(cfg).history.lines(), old(cfg).history.max_len as nat, line@),
        final(cfg).history.max_len == old(cfg).history.max_len,
        *final(cfg) == (Config { history: final(cfg).history, ..*old(cfg) }),
{
    cfg.history.add(line)
}

/// Bounds the shared history to `len` entries, keeping the newest ones.
/// Refused, with nothing changed, when `len` is 0.
pub fn linenoise_history_set_max_len<C, H>(cfg: &mut Config<C, H>, len: usize) -> (r: bool)
    requires
        old(cfg).wf(),
    ensures
        final(cfg).wf(),
        r == (len >= 1),
        r ==> final(cfg).history.max_len == len
            && final(cfg).history.lines() == crate::history::newest(old(cfg).history.lines(), len as nat),
        !r ==> *final(cfg) == *old(cfg),
        *final(cfg) == (Config { history: final(cfg).history, ..*old(cfg) }),
{
    cfg.history.set_max_len(len)
}

} // verus!
