//! Laws of the steps that bring messages up to date.

use vstd::prelude::*;

use crate::discord::sync::{ActionView, RunView};
use crate::ids::MessageId;

verus! {

/// Each step brings the message at its own position up to date: one that is there is
/// edited to the text for its position, a missing one is sent with the text for its
/// position, and a superfluous one is deleted. The run is done where none is left.
pub proof fn a_step_brings_its_message_up_to_date(run: RunView)
    requires
        run.valid(),
    ensures
        match run.action() {
            ActionView::Edit(id, content) => {
                &&& run.edited < run.previous.len() && run.edited < run.target.len()
                &&& id == run.previous[run.edited as int]
                &&& content == run.target[run.edited as int]
            },
            ActionView::Send(content) => {
                &&& run.edited == run.previous.len()
                &&& run.previous.len() + run.sent.len() < run.target.len()
                &&& content == run.target[(run.previous.len() + run.sent.len()) as int]
            },
            ActionView::Delete(id) => {
                &&& run.edited == run.target.len()
                &&& run.target.len() + run.deleted < run.previous.len()
                &&& id == run.previous[(run.target.len() + run.deleted) as int]
            },
            ActionView::Done => {
                &&& run.edited + run.sent.len() == run.target.len()
                &&& run.edited + run.deleted == run.previous.len()
            },
        },
{
}

/// How many steps are left.
pub open spec fn left(run: RunView) -> int {
    (if run.previous.len() < run.target.len() {
        run.target.len()
    } else {
        run.previous.len()
    }) - run.edited - run.sent.len() - run.deleted
}

/// Each step leaves one step fewer, and the run is done exactly where none is left.
pub proof fn each_step_leaves_one_fewer(run: RunView, sent: MessageId)
    requires
        run.valid(),
    ensures
        run.advanced(sent).valid(),
        run.action() == ActionView::Done <==> left(run) == 0,
        left(run) >= 0,
        left(run) > 0 ==> left(run.advanced(sent)) == left(run) - 1,
        run.advanced(sent).previous == run.previous,
        run.advanced(sent).target == run.target,
{
}

} // verus!
