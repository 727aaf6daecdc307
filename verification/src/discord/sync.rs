//! Synchronizing a source's Discord messages with their rendered form.
//!
//! A plan says which messages are edited, sent and deleted. A run performs it
//! one operation at a time and knows, whenever an operation fails, which
//! messages exist on Discord.

use vstd::prelude::*;

use crate::db;
use crate::ids::MessageId;
use crate::text;

verus! {

/// Describes the Discord operations needed to match a target message list.
#[derive(Clone, Debug, Eq, PartialEq)]
pub struct MessagePlan {
    /// Existing messages to edit in place.
    pub edits: Vec<(MessageId, String)>,
    /// New messages to append in order.
    pub sends: Vec<String>,
    /// Existing messages no longer needed.
    pub deletes: Vec<MessageId>,
}

/// The content of a message plan.
pub ghost struct PlanView {
    pub edits: Seq<(MessageId, Seq<char>)>,
    pub sends: Seq<Seq<char>>,
    pub deletes: Seq<MessageId>,
}

impl View for MessagePlan {
    type V = PlanView;

    open spec fn view(&self) -> PlanView {
        PlanView {
            edits: self.edits@.map_values(|edit: (MessageId, String)| (edit.0, edit.1@)),
            sends: text::texts(self.sends@),
            deletes: self.deletes@,
        }
    }
}

/// How many messages are edited in place.
pub open spec fn shared_count(previous: nat, target: nat) -> nat {
    if previous <= target {
        previous
    } else {
        target
    }
}

/// The plan that turns the previous messages into the target ones.
pub open spec fn plan_of(previous: Seq<MessageId>, target: Seq<Seq<char>>) -> PlanView {
    let shared = shared_count(previous.len(), target.len());
    PlanView {
        edits: Seq::new(shared, |i: int| (previous[i], target[i])),
        sends: target.skip(shared as int),
        deletes: previous.skip(shared as int),
    }
}

/// Plans edits, sends, and deletes without touching Discord.
#[must_use]
pub fn plan_messages(previous: &Vec<MessageId>, target: &Vec<String>) -> (plan: MessagePlan)
    ensures
        plan@ == plan_of(previous@, text::texts(target@)),
{
    let shared: usize = if previous.len() <= target.len() {
        previous.len()
    } else {
        target.len()
    };
    let ghost texts = text::texts(target@);
    let ghost wanted = plan_of(previous@, texts);
    let mut edits: Vec<(MessageId, String)> = Vec::new();
    let mut i: usize = 0;
    while i < shared
        invariant
            i <= shared <= previous@.len(),
            shared <= target@.len(),
            edits@.len() == i,
            forall|j: int|
                0 <= j < i ==> (#[trigger] edits@[j]).0 == previous@[j] && edits@[j].1@
                    == target@[j]@,
        decreases shared - i,
    {
        edits.push((previous[i], text::copy(target[i].as_str())));
        i += 1;
    }
    let mut sends: Vec<String> = Vec::new();
    while i < target.len()
        invariant
            shared <= i <= target@.len(),
            sends@.len() == i - shared,
            forall|j: int| 0 <= j < sends@.len() ==> (#[trigger] sends@[j])@ == target@[shared + j]@,
        decreases target@.len() - i,
    {
        sends.push(text::copy(target[i].as_str()));
        i += 1;
    }
    let mut deletes: Vec<MessageId> = Vec::new();
    let mut k: usize = shared;
    while k < previous.len()
        invariant
            shared <= k <= previous@.len(),
            deletes@ == previous@.subrange(shared as int, k as int),
        decreases previous@.len() - k,
    {
        deletes.push(previous[k]);
        k += 1;
    }
    let plan = MessagePlan { edits, sends, deletes };
    assert(plan@.edits =~= wanted.edits);
    assert(plan@.sends =~= wanted.sends);
    assert(plan@.deletes =~= wanted.deletes);
    plan
}

/// Every target text is edited into place or sent, in order.
pub proof fn a_plan_shows_the_target(previous: Seq<MessageId>, target: Seq<Seq<char>>)
    ensures
        plan_of(previous, target).edits.map_values(
            |edit: (MessageId, Seq<char>)| edit.1,
        ) + plan_of(previous, target).sends == target,
{
    let plan = plan_of(previous, target);
    assert(plan.edits.map_values(|edit: (MessageId, Seq<char>)| edit.1) + plan.sends =~= target);
}

/// Every previous message is edited or deleted, in order, and none is both.
pub proof fn a_plan_covers_the_previous_messages(previous: Seq<MessageId>, target: Seq<Seq<char>>)
    ensures
        plan_of(previous, target).edits.map_values(
            |edit: (MessageId, Seq<char>)| edit.0,
        ) + plan_of(previous, target).deletes == previous,
{
    let plan = plan_of(previous, target);
    assert(plan.edits.map_values(|edit: (MessageId, Seq<char>)| edit.0) + plan.deletes =~= previous);
}

/// A plan never both sends and deletes.
pub proof fn a_plan_sends_or_deletes(previous: Seq<MessageId>, target: Seq<Seq<char>>)
    ensures
        plan_of(previous, target).sends.len() == 0 || plan_of(previous, target).deletes.len() == 0,
{
}

/// The next Discord operation of a run.
pub enum SyncAction {
    /// Edit a message.
    Edit {
        /// Message to edit.
        id: MessageId,
        /// New content.
        content: String,
    },
    /// Send a message.
    Send {
        /// Content to send.
        content: String,
    },
    /// Delete a message.
    Delete {
        /// Message to delete.
        id: MessageId,
    },
    /// Everything has been done.
    Done,
}

/// A plan in execution.
pub struct SyncRun {
    previous: Vec<MessageId>,
    plan: MessagePlan,
    edited: usize,
    sent: Vec<MessageId>,
    deleted: usize,
}

/// How far a run has come.
pub ghost struct RunView {
    pub previous: Seq<MessageId>,
    pub target: Seq<Seq<char>>,
    pub edited: nat,
    pub sent: Seq<MessageId>,
    pub deleted: nat,
}

/// An operation as the run asks for it.
pub ghost enum ActionView {
    Edit(MessageId, Seq<char>),
    Send(Seq<char>),
    Delete(MessageId),
    Done,
}

impl View for SyncAction {
    type V = ActionView;

    open spec fn view(&self) -> ActionView {
        match self {
            SyncAction::Edit { id, content } => ActionView::Edit(*id, content@),
            SyncAction::Send { content } => ActionView::Send(content@),
            SyncAction::Delete { id } => ActionView::Delete(*id),
            SyncAction::Done => ActionView::Done,
        }
    }
}

impl RunView {
    /// The plan of the run.
    pub open spec fn plan(self) -> PlanView {
        plan_of(self.previous, self.target)
    }

    /// Edits come first, then sends, then deletes.
    pub open spec fn valid(self) -> bool {
        &&& self.edited <= self.plan().edits.len()
        &&& self.sent.len() <= self.plan().sends.len()
        &&& self.deleted <= self.plan().deletes.len()
        &&& self.sent.len() > 0 ==> self.edited == self.plan().edits.len()
        &&& self.deleted > 0 ==> self.edited == self.plan().edits.len() && self.sent.len()
            == self.plan().sends.len()
    }

    /// The next operation.
    pub open spec fn action(self) -> ActionView {
        let plan = self.plan();
        if self.edited < plan.edits.len() {
            let (id, content) = plan.edits[self.edited as int];
            ActionView::Edit(id, content)
        } else if self.sent.len() < plan.sends.len() {
            ActionView::Send(plan.sends[self.sent.len() as int])
        } else if self.deleted < plan.deletes.len() {
            ActionView::Delete(plan.deletes[self.deleted as int])
        } else {
            ActionView::Done
        }
    }

    /// The run after its next operation succeeded, with the message it sent.
    pub open spec fn advanced(self, sent: MessageId) -> RunView {
        match self.action() {
            ActionView::Edit(_, _) => RunView { edited: self.edited + 1, ..self },
            ActionView::Send(_) => RunView { sent: self.sent.push(sent), ..self },
            ActionView::Delete(_) => RunView { deleted: self.deleted + 1, ..self },
            ActionView::Done => self,
        }
    }

    /// The messages of the source that exist on Discord: the previous ones
    /// without those deleted, and those sent.
    pub open spec fn existing(self) -> Seq<MessageId> {
        let shared = shared_count(self.previous.len(), self.target.len());
        self.previous.take(shared as int) + self.sent + self.previous.skip(
            (shared + self.deleted) as int,
        )
    }
}

impl View for SyncRun {
    type V = RunView;

    closed spec fn view(&self) -> RunView {
        RunView {
            previous: self.previous@,
            target: self.plan@.edits.map_values(|edit: (MessageId, Seq<char>)| edit.1)
                + self.plan@.sends,
            edited: self.edited as nat,
            sent: self.sent@,
            deleted: self.deleted as nat,
        }
    }
}

impl SyncRun {
    /// The run holds the plan for its messages and target.
    pub closed spec fn wf(self) -> bool {
        &&& self.plan@ == plan_of(self.previous@, self@.target)
        &&& self@.valid()
    }

    /// Plans the synchronization of a source's messages.
    pub fn new(previous: Vec<MessageId>, target: &Vec<String>) -> (run: SyncRun)
        ensures
            run.wf(),
            run@ == (RunView {
                previous: previous@,
                target: text::texts(target@),
                edited: 0,
                sent: Seq::empty(),
                deleted: 0,
            }),
    {
        let plan = plan_messages(&previous, target);
        proof {
            a_plan_shows_the_target(previous@, text::texts(target@));
        }
        SyncRun { previous, plan, edited: 0, sent: Vec::new(), deleted: 0 }
    }

    /// Returns the next operation.
    pub fn next_action(&self) -> (action: SyncAction)
        requires
            self.wf(),
        ensures
            action@ == self@.action(),
    {
        if self.edited < self.plan.edits.len() {
            let edit = &self.plan.edits[self.edited];
            assert(self.plan@.edits[self.edited as int] == (edit.0, edit.1@));
            SyncAction::Edit { id: edit.0, content: text::copy(edit.1.as_str()) }
        } else if self.sent.len() < self.plan.sends.len() {
            assert(self.plan@.sends[self.sent@.len() as int]
                == self.plan.sends@[self.sent@.len() as int]@);
            SyncAction::Send { content: text::copy(self.plan.sends[self.sent.len()].as_str()) }
        } else if self.deleted < self.plan.deletes.len() {
            SyncAction::Delete { id: self.plan.deletes[self.deleted] }
        } else {
            SyncAction::Done
        }
    }

    /// Records that the next operation succeeded. `sent` is the message that a
    /// send created and has no meaning for other operations.
    pub fn succeeded(&mut self, sent: MessageId)
        requires
            old(self).wf(),
        ensures
            final(self).wf(),
            final(self)@ == old(self)@.advanced(sent),
    {
        if self.edited < self.plan.edits.len() {
            self.edited = self.edited + 1;
        } else if self.sent.len() < self.plan.sends.len() {
            self.sent.push(sent);
        } else if self.deleted < self.plan.deletes.len() {
            self.deleted = self.deleted + 1;
        }
    }

    /// Returns the messages of the source that exist on Discord, in display
    /// order: what is persisted once the run is done or an operation failed.
    pub fn message_ids(&self) -> (ids: Vec<MessageId>)
        requires
            self.wf(),
        ensures
            ids@ == self@.existing(),
    {
        let shared = self.plan.edits.len();
        let mut ids: Vec<MessageId> = Vec::new();
        let mut i: usize = 0;
        while i < shared
            invariant
                i <= shared <= self.previous@.len(),
                ids@ == self.previous@.take(i as int),
            decreases shared - i,
        {
            ids.push(self.previous[i]);
            i += 1;
        }
        let mut sent = db::copy_ids(&self.sent);
        ids.append(&mut sent);
        let ghost head = self.previous@.take(shared as int) + self.sent@;
        let mut k: usize = self.deleted;
        while k < self.plan.deletes.len()
            invariant
                self.deleted <= k <= self.plan.deletes@.len(),
                ids@ == head + self.plan.deletes@.subrange(self.deleted as int, k as int),
            decreases self.plan.deletes@.len() - k,
        {
            ids.push(self.plan.deletes[k]);
            proof {
                assert(self.plan.deletes@.subrange(self.deleted as int, k + 1)
                    =~= self.plan.deletes@.subrange(self.deleted as int, k as int).push(
                    self.plan.deletes@[k as int],
                ));
            }
            k += 1;
        }
        assert(self.plan@.deletes == self.previous@.skip(shared as int));
        assert(ids@ =~= self@.existing());
        ids
    }
}

/// A finished run leaves one message per target text.
pub proof fn a_finished_run_matches_the_target(run: RunView)
    requires
        run.valid(),
        run.action() == ActionView::Done,
    ensures
        run.existing().len() == run.target.len(),
        run.existing() == run.previous.take(
            shared_count(run.previous.len(), run.target.len()) as int,
        ) + run.sent,
{
    let shared = shared_count(run.previous.len(), run.target.len());
    assert(run.previous.skip((shared + run.deleted) as int) =~= Seq::<MessageId>::empty());
    assert(run.previous.take(shared as int) + run.sent + Seq::<MessageId>::empty()
        =~= run.previous.take(shared as int) + run.sent);
}

/// A failing operation loses no message: before the first operation the
/// existing messages are the previous ones, an edit changes none of them, a send
/// adds the message it created, and a delete removes the message it names.
pub proof fn every_existing_message_stays_known(run: RunView, sent: MessageId)
    requires
        run.valid(),
    ensures
        run.sent.len() == 0 && run.deleted == 0 ==> run.existing() == run.previous,
        match run.action() {
            ActionView::Edit(id, _) => run.advanced(sent).existing() == run.existing()
                && run.existing().contains(id),
            ActionView::Send(_) => run.advanced(sent).existing() == run.existing().push(sent),
            ActionView::Delete(id) => {
                let at = shared_count(run.previous.len(), run.target.len()) as int
                    + run.sent.len();
                run.existing()[at] == id && run.advanced(sent).existing() == run.existing().remove(
                    at,
                )
            },
            ActionView::Done => run.advanced(sent).existing() == run.existing(),
        },
        run.advanced(sent).valid(),
{
    let shared = shared_count(run.previous.len(), run.target.len());
    assert(run.sent.len() == 0 && run.deleted == 0 ==> run.existing() =~= run.previous);
    match run.action() {
        ActionView::Edit(id, _) => {
            assert(run.existing()[run.edited as int] == id);
        },
        ActionView::Send(_) => {
            assert(run.previous.skip((shared + run.deleted) as int) =~= Seq::<MessageId>::empty());
            assert(run.advanced(sent).existing() =~= run.existing().push(sent));
        },
        ActionView::Delete(id) => {
            let at = shared as int + run.sent.len();
            assert(run.advanced(sent).existing() =~= run.existing().remove(at));
        },
        ActionView::Done => {},
    }
}

} // verus!
