//! Keys in the two visual modes.

use vstd::prelude::*;
use crate::commands::{Context, KeyPress, Outcome, bound_command, key_effect, lookup_and_run, visual_bindings, visual_table};
use crate::viewer::App;

verus! {

/// A key in the visual modes: the command that the table binds to it, if any.
pub fn handle(app: &mut App, key: KeyPress, ctx: &mut Context) -> (r: Outcome)
    requires
        old(app).wf(),
    ensures
        key_effect(bound_command(visual_table(), key), *old(app), *old(ctx), *final(app), *final(ctx), r),
        final(app).wf(),
        old(ctx).height >= 1 && old(app).cursor_visible(old(ctx).height as int)
            ==> final(app).cursor_visible(old(ctx).height as int),
{
    lookup_and_run(visual_bindings().as_slice(), key, app, ctx)
}

} // verus!
