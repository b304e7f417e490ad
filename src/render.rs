//! Requests for a new render pass.
//!
//! Whoever changes state asks for a render; the request is passed on to the
//! event loop only when none is outstanding, and the loop clears it when it
//! renders.
use vstd::prelude::*;

verus! {

/// Whether a render pass has been asked for and not yet run.
#[derive(Debug, Clone, Copy, PartialEq, Eq, Structural)]
pub struct RenderContext {
    needs_render: bool,
}

impl RenderContext {
    /// Whether a render is outstanding.
    pub closed spec fn pending(&self) -> bool {
        self.needs_render
    }

    /// A context with no outstanding render.
    pub fn new() -> (r: Self)
        ensures
            !r.pending(),
    {
        RenderContext { needs_render: false }
    }

    /// Asks for a render. Returns whether the request must be sent on:
    /// only when none was outstanding.
    pub fn request_render(&mut self) -> (send: bool)
        ensures
            final(self).pending(),
            send == !old(self).pending(),
    {
        if !self.needs_render {
            self.needs_render = true;
            true
        } else {
            false
        }
    }

    /// Marks the outstanding render as done.
    pub fn clear_render_flag(&mut self)
        ensures
            !final(self).pending(),
    {
        self.needs_render = false;
    }
}

/// Asks the current render context, if there is one, for a render. Returns
/// whether the request must be sent on to the event loop.
pub fn request_render(ctx: &mut Option<RenderContext>) -> (send: bool)
    ensures
        match (*old(ctx), *final(ctx)) {
            (Some(before), Some(after)) => after.pending() && send == !before.pending(),
            (None, None) => !send,
            _ => false,
        },
{
    match ctx {
        Some(c) => c.request_render(),
        None => false,
    }
}

} // verus!
