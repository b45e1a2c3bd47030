//! Keys in search mode.

use vstd::prelude::*;
use crate::commands::{Context, EditorCommand, KeyName, KeyPress, Outcome, search_bindings, search_table, is_bound, key_effect, lookup_and_run, typing_command};
use crate::viewer::App;

verus! {

/// A typed key in search mode: a bound key runs its command, another
/// character is added to the query.
pub fn handle(app: &mut App, key: KeyPress, ctx: &mut Context) -> (r: Outcome)
    requires
        old(app).wf(),
    ensures
        key_effect(
            typing_command(search_table(), key, |c: char| EditorCommand::SearchChar(c)),
            *old(app),
            *old(ctx),
            *final(app),
            *final(ctx),
            r,
        ),
        final(app).wf(),
        old(ctx).height >= 1 && old(app).cursor_visible(old(ctx).height as int)
            ==> final(app).cursor_visible(old(ctx).height as int),
{
    let table = search_bindings();
    if let KeyName::Char(c) = key.code {
        if !is_bound(table.as_slice(), key) {
            return EditorCommand::SearchChar(c).run(app, ctx);
        }
    }
    lookup_and_run(table.as_slice(), key, app, ctx)
}

} // verus!
