//! Sequences of calls on the platform, and what they do to its state.
use vstd::prelude::*;

use crate::model::{
    lemma_cancel_job_keeps_inv, lemma_create_channel_keeps_inv, lemma_create_job_keeps_inv,
    lemma_dispute_content_keeps_inv, lemma_record_view_keeps_inv,
    lemma_register_content_keeps_inv, lemma_resolve_dispute_keeps_inv,
    lemma_subscribe_keeps_inv, lemma_unsubscribe_keeps_inv, lemma_update_channel_keeps_inv,
    lemma_update_job_status_keeps_inv, PlatformState,
};
use crate::types::{Address, JobStatus, JobType, LicenseType};

verus! {

/// A call that can change the platform, with its arguments (text as bytes,
/// and the ledger time where the call reads it).
pub enum Call {
    CreateChannel {
        owner: Address,
        name: Seq<u8>,
        description: Seq<u8>,
        category: Seq<u8>,
        royalty_address: Address,
        now: u64,
    },
    UpdateChannel {
        owner: Address,
        channel_id: u64,
        name: Seq<u8>,
        description: Seq<u8>,
        category: Seq<u8>,
    },
    Subscribe { user: Address, channel_id: u64 },
    Unsubscribe { user: Address, channel_id: u64 },
    RegisterContent {
        owner: Address,
        channel_id: u64,
        title: Seq<u8>,
        description: Seq<u8>,
        content_hash: Seq<u8>,
        content_type: Seq<u8>,
        license: LicenseType,
        royalty_bps: u32,
        now: u64,
    },
    DisputeContent { disputer: Address, content_id: u64 },
    ResolveDispute { content_id: u64, uphold_original: bool },
    RecordView { viewer: Address, content_id: u64 },
    CreateJob {
        creator: Address,
        channel_id: u64,
        title: Seq<u8>,
        description: Seq<u8>,
        job_type: JobType,
        scheduled_at: u64,
        deadline_at: u64,
        reward_xlm: i128,
        now: u64,
    },
    UpdateJobStatus { caller: Address, job_id: u64, new_status: JobStatus, now: u64 },
    CancelJob { caller: Address, job_id: u64, now: u64 },
}

impl PlatformState {
    /// The call's arithmetic stays within its integer types. A call whose
    /// arithmetic would overflow aborts, and the ledger rolls it back.
    pub open spec fn call_defined(self, call: Call) -> bool {
        match call {
            Call::CreateChannel { owner, .. } => self.create_channel_defined(owner),
            Call::Subscribe { user, channel_id } => self.subscribe_defined(user, channel_id),
            Call::RegisterContent { owner, channel_id, royalty_bps, .. } => self.register_content_defined(
                owner,
                channel_id,
                royalty_bps,
            ),
            Call::RecordView { content_id, .. } => self.record_view_defined(content_id),
            Call::CreateJob { creator, channel_id, scheduled_at, deadline_at, .. } => self.create_job_defined(
                creator,
                channel_id,
                scheduled_at,
                deadline_at,
            ),
            _ => true,
        }
    }

    /// The state after the call, and whether the call succeeded, when its
    /// arithmetic stays within bounds.
    pub open spec fn call_outcome(self, call: Call) -> (PlatformState, bool) {
        match call {
            Call::CreateChannel { owner, name, description, category, royalty_address, now } => {
                let (t, r) = self.create_channel(
                    owner,
                    name,
                    description,
                    category,
                    royalty_address,
                    now,
                );
                (t, r is Ok)
            },
            Call::UpdateChannel { owner, channel_id, name, description, category } => {
                let (t, r) = self.update_channel(owner, channel_id, name, description, category);
                (t, r is Ok)
            },
            Call::Subscribe { user, channel_id } => {
                let (t, r) = self.subscribe(user, channel_id);
                (t, r is Ok)
            },
            Call::Unsubscribe { user, channel_id } => {
                let (t, r) = self.unsubscribe(user, channel_id);
                (t, r is Ok)
            },
            Call::RegisterContent {
                owner,
                channel_id,
                title,
                description,
                content_hash,
                content_type,
                license,
                royalty_bps,
                now,
            } => {
                let (t, r) = self.register_content(
                    owner,
                    channel_id,
                    title,
                    description,
                    content_hash,
                    content_type,
                    license,
                    royalty_bps,
                    now,
                );
                (t, r is Ok)
            },
            Call::DisputeContent { disputer, content_id } => {
                let (t, r) = self.dispute_content(disputer, content_id);
                (t, r is Ok)
            },
            Call::ResolveDispute { content_id, uphold_original } => {
                let (t, r) = self.resolve_dispute(content_id, uphold_original);
                (t, r is Ok)
            },
            Call::RecordView { viewer, content_id } => {
                let (t, r) = self.record_view(viewer, content_id);
                (t, r is Ok)
            },
            Call::CreateJob {
                creator,
                channel_id,
                title,
                description,
                job_type,
                scheduled_at,
                deadline_at,
                reward_xlm,
                now,
            } => {
                let (t, r) = self.create_job(
                    creator,
                    channel_id,
                    title,
                    description,
                    job_type,
                    scheduled_at,
                    deadline_at,
                    reward_xlm,
                    now,
                );
                (t, r is Ok)
            },
            Call::UpdateJobStatus { caller, job_id, new_status, now } => {
                let (t, r) = self.update_job_status(caller, job_id, new_status, now);
                (t, r is Ok)
            },
            Call::CancelJob { caller, job_id, now } => {
                let (t, r) = self.cancel_job(caller, job_id, now);
                (t, r is Ok)
            },
        }
    }

    /// The call succeeds.
    pub open spec fn succeeds(self, call: Call) -> bool {
        self.call_defined(call) && self.call_outcome(call).1
    }

    /// The state after the call; an aborted call changes nothing.
    pub open spec fn step(self, call: Call) -> PlatformState {
        if self.call_defined(call) {
            self.call_outcome(call).0
        } else {
            self
        }
    }
}

/// The state after the calls, made in order from `s`.
pub open spec fn run(s: PlatformState, calls: Seq<Call>) -> PlatformState
    decreases calls.len(),
{
    if calls.len() == 0 {
        s
    } else {
        run(s, calls.drop_last()).step(calls.last())
    }
}

/// Number of the calls, made in order from `s`, that succeed in creating a
/// channel, a content record and a job.
pub open spec fn creations(s: PlatformState, calls: Seq<Call>) -> (nat, nat, nat)
    decreases calls.len(),
{
    if calls.len() == 0 {
        (0, 0, 0)
    } else {
        let before = creations(s, calls.drop_last());
        let t = run(s, calls.drop_last());
        let call = calls.last();
        let ok = t.succeeds(call);
        (
            before.0 + if ok && call is CreateChannel {
                1nat
            } else {
                0nat
            },
            before.1 + if ok && call is RegisterContent {
                1nat
            } else {
                0nat
            },
            before.2 + if ok && call is CreateJob {
                1nat
            } else {
                0nat
            },
        )
    }
}

/// Number of the calls, made in order from `s`, that record a view of a
/// content of channel `channel_id`.
pub open spec fn views_recorded(s: PlatformState, calls: Seq<Call>, channel_id: u64) -> nat
    decreases calls.len(),
{
    if calls.len() == 0 {
        0
    } else {
        let t = run(s, calls.drop_last());
        let call = calls.last();
        views_recorded(s, calls.drop_last(), channel_id) + match call {
            Call::RecordView { content_id, .. } => if t.succeeds(call) && t.content(
                content_id,
            ).channel_id == channel_id {
                1nat
            } else {
                0nat
            },
            _ => 0nat,
        }
    }
}

/// The call names content `content_id` as the content it disputes,
/// resolves or views.
pub open spec fn touches_content(call: Call, content_id: u64) -> bool {
    match call {
        Call::DisputeContent { content_id: c, .. } => c == content_id,
        Call::ResolveDispute { content_id: c, .. } => c == content_id,
        Call::RecordView { content_id: c, .. } => c == content_id,
        _ => false,
    }
}

/// The call names job `job_id` as the job whose status it changes.
pub open spec fn touches_job(call: Call, job_id: u64) -> bool {
    match call {
        Call::UpdateJobStatus { job_id: j, .. } => j == job_id,
        Call::CancelJob { job_id: j, .. } => j == job_id,
        _ => false,
    }
}

/// Every call keeps the invariant.
pub proof fn lemma_step_keeps_inv(s: PlatformState, call: Call)
    requires
        s.inv(),
    ensures
        s.step(call).inv(),
{
    if s.call_defined(call) {
        match call {
            Call::CreateChannel { owner, name, description, category, royalty_address, now } => {
                lemma_create_channel_keeps_inv(
                    s,
                    owner,
                    name,
                    description,
                    category,
                    royalty_address,
                    now,
                );
            },
            Call::UpdateChannel { owner, channel_id, name, description, category } => {
                lemma_update_channel_keeps_inv(s, owner, channel_id, name, description, category);
            },
            Call::Subscribe { user, channel_id } => {
                lemma_subscribe_keeps_inv(s, user, channel_id);
            },
            Call::Unsubscribe { user, channel_id } => {
                lemma_unsubscribe_keeps_inv(s, user, channel_id);
            },
            Call::RegisterContent {
                owner,
                channel_id,
                title,
                description,
                content_hash,
                content_type,
                license,
                royalty_bps,
                now,
            } => {
                lemma_register_content_keeps_inv(
                    s,
                    owner,
                    channel_id,
                    title,
                    description,
                    content_hash,
                    content_type,
                    license,
                    royalty_bps,
                    now,
                );
            },
            Call::DisputeContent { disputer, content_id } => {
                lemma_dispute_content_keeps_inv(s, disputer, content_id);
            },
            Call::ResolveDispute { content_id, uphold_original } => {
                lemma_resolve_dispute_keeps_inv(s, content_id, uphold_original);
            },
            Call::RecordView { viewer, content_id } => {
                lemma_record_view_keeps_inv(s, viewer, content_id);
            },
            Call::CreateJob {
                creator,
                channel_id,
                title,
                description,
                job_type,
                scheduled_at,
                deadline_at,
                reward_xlm,
                now,
            } => {
                lemma_create_job_keeps_inv(
                    s,
                    creator,
                    channel_id,
                    title,
                    description,
                    job_type,
                    scheduled_at,
                    deadline_at,
                    reward_xlm,
                    now,
                );
            },
            Call::UpdateJobStatus { caller, job_id, new_status, now } => {
                lemma_update_job_status_keeps_inv(s, caller, job_id, new_status, now);
            },
            Call::CancelJob { caller, job_id, now } => {
                lemma_cancel_job_keeps_inv(s, caller, job_id, now);
            },
        }
    }
}

/// Every sequence of calls keeps the invariant.
pub proof fn lemma_run_keeps_inv(s: PlatformState, calls: Seq<Call>)
    requires
        s.inv(),
    ensures
        run(s, calls).inv(),
    decreases calls.len(),
{
    if calls.len() > 0 {
        lemma_run_keeps_inv(s, calls.drop_last());
        lemma_step_keeps_inv(run(s, calls.drop_last()), calls.last());
    }
}

/// What a call keeps of the records that exist before it: no record goes
/// away, channel identifiers and owners stay, content hashes stay, content
/// the call does not touch stays as it was, and so does a job the call does
/// not touch. A channel's total views change only through a recorded view
/// of its content, and only a successful creation adds a record.
pub proof fn lemma_step_frame(s: PlatformState, call: Call)
    ensures
        ({
            let t = s.step(call);
            let ok = s.succeeds(call);
            &&& s.channels.len() <= t.channels.len()
            &&& s.contents.len() <= t.contents.len()
            &&& s.jobs.len() <= t.jobs.len()
            &&& t.channels.len() == s.channels.len() + if ok && call is CreateChannel {
                1nat
            } else {
                0nat
            }
            &&& t.contents.len() == s.contents.len() + if ok && call is RegisterContent {
                1nat
            } else {
                0nat
            }
            &&& t.jobs.len() == s.jobs.len() + if ok && call is CreateJob {
                1nat
            } else {
                0nat
            }
            &&& forall|i: int|
                0 <= i < s.channels.len() ==> (#[trigger] t.channels[i]).owner
                    == s.channels[i].owner && t.channels[i].id == s.channels[i].id
            &&& forall|i: int|
                0 <= i < s.contents.len() ==> (#[trigger] t.contents[i]).content_hash
                    == s.contents[i].content_hash
            &&& forall|i: int|
                0 <= i < s.contents.len() && !touches_content(call, (i + 1) as u64)
                    ==> #[trigger] t.contents[i] == s.contents[i]
            &&& forall|i: int|
                0 <= i < s.jobs.len() && !touches_job(call, (i + 1) as u64) ==> #[trigger] t.jobs[i]
                    == s.jobs[i]
            &&& forall|i: int|
                0 <= i < s.channels.len() ==> (#[trigger] t.channels[i]).total_views
                    == s.channels[i].total_views + match call {
                    Call::RecordView { content_id, .. } => if ok && s.content(content_id).channel_id
                        == i + 1 {
                        1int
                    } else {
                        0int
                    },
                    _ => 0int,
                }
            &&& call matches Call::RecordView { content_id, .. } ==> (ok ==> s.has_channel(
                s.content(content_id).channel_id,
            ))
            &&& call matches Call::CreateChannel { owner, .. } ==> ok ==> {
                &&& t.channels[s.channels.len() as int].owner == owner
                &&& t.channels[s.channels.len() as int].total_views == 0
            }
        }),
{
}

} // verus!
