//! What each operation does, stated over its inputs and results: when it
//! succeeds, which error it gives otherwise, and which fields of the state
//! it changes and to what.
use vstd::prelude::*;

use crate::model::PlatformState;
use crate::types::{
    Address, ChannelStatus, ContractError, CopyrightStatus, JobStatus, JobType, LicenseType,
};

verus! {

// ---------------------------------------------------------------
//  Jobs
// ---------------------------------------------------------------

/// The job life cycle. A job's creator may move it from pending to in
/// progress or cancelled, and from in progress to completed, failed or
/// cancelled; each such call succeeds, sets the new status and stamps the
/// time, and changes nothing else. Every other pair of statuses is refused
/// with `InvalidInput`, and the platform stays as it was.
pub proof fn job_status_follows_life_cycle(
    s: PlatformState,
    job_id: u64,
    new_status: JobStatus,
    now: u64,
)
    requires
        s.has_job(job_id),
    ensures
        ({
            let old = s.job(job_id);
            let (t, r) = s.update_job_status(old.creator, job_id, new_status, now);
            let allowed = (old.status == JobStatus::Pending && new_status == JobStatus::InProgress)
                || (old.status == JobStatus::Pending && new_status == JobStatus::Cancelled) || (
            old.status == JobStatus::InProgress && new_status == JobStatus::Completed) || (
            old.status == JobStatus::InProgress && new_status == JobStatus::Failed) || (old.status
                == JobStatus::InProgress && new_status == JobStatus::Cancelled);
            &&& allowed ==> {
                &&& r == Ok::<(), ContractError>(())
                &&& t.jobs.len() == s.jobs.len()
                &&& t.job(job_id).status == new_status
                &&& t.job(job_id).updated_at == now
                &&& t.job(job_id).id == old.id
                &&& t.job(job_id).channel_id == old.channel_id
                &&& t.job(job_id).creator == old.creator
                &&& t.job(job_id).title == old.title
                &&& t.job(job_id).description == old.description
                &&& t.job(job_id).job_type == old.job_type
                &&& t.job(job_id).scheduled_at == old.scheduled_at
                &&& t.job(job_id).deadline_at == old.deadline_at
                &&& t.job(job_id).created_at == old.created_at
                &&& t.job(job_id).reward_xlm == old.reward_xlm
                &&& forall|i: int|
                    0 <= i < s.jobs.len() && i != job_id - 1 ==> #[trigger] t.jobs[i] == s.jobs[i]
                &&& t.channels == s.channels
                &&& t.contents == s.contents
            }
            &&& !allowed ==> r == Err::<(), ContractError>(ContractError::InvalidInput) && t == s
        }),
{
}

/// Only a job's creator may change its status; anyone else is refused
/// with `Unauthorized`, and a missing job with `NotFound`.
pub proof fn job_status_change_needs_creator(
    s: PlatformState,
    caller: Address,
    job_id: u64,
    new_status: JobStatus,
    now: u64,
)
    ensures
        !s.has_job(job_id) ==> s.update_job_status(caller, job_id, new_status, now) == (
            s,
            Err::<(), ContractError>(ContractError::NotFound),
        ),
        s.has_job(job_id) && s.job(job_id).creator != caller ==> s.update_job_status(
            caller,
            job_id,
            new_status,
            now,
        ) == (s, Err::<(), ContractError>(ContractError::Unauthorized)),
{
}

/// A job's creator may cancel it exactly while it is pending or in
/// progress; cancelling sets the status and stamps the time. Otherwise the
/// call fails (`NotFound`, `Unauthorized` or `InvalidInput`) and changes
/// nothing.
pub proof fn cancel_job_behaviour(s: PlatformState, caller: Address, job_id: u64, now: u64)
    ensures
        ({
            let (t, r) = s.cancel_job(caller, job_id, now);
            &&& !s.has_job(job_id) ==> r == Err::<(), ContractError>(ContractError::NotFound)
            &&& s.has_job(job_id) && s.job(job_id).creator != caller ==> r == Err::<
                (),
                ContractError,
            >(ContractError::Unauthorized)
            &&& s.has_job(job_id) && s.job(job_id).creator == caller ==> {
                let old = s.job(job_id);
                let open = old.status == JobStatus::Pending || old.status == JobStatus::InProgress;
                &&& open ==> {
                    &&& r == Ok::<(), ContractError>(())
                    &&& t.jobs.len() == s.jobs.len()
                    &&& t.job(job_id).status == JobStatus::Cancelled
                    &&& t.job(job_id).updated_at == now
                    &&& t.job(job_id).creator == old.creator
                    &&& t.job(job_id).channel_id == old.channel_id
                    &&& t.job(job_id).title == old.title
                    &&& t.job(job_id).scheduled_at == old.scheduled_at
                    &&& t.job(job_id).deadline_at == old.deadline_at
                    &&& t.job(job_id).created_at == old.created_at
                    &&& t.job(job_id).reward_xlm == old.reward_xlm
                    &&& forall|i: int|
                        0 <= i < s.jobs.len() && i != job_id - 1 ==> #[trigger] t.jobs[i]
                            == s.jobs[i]
                    &&& t.channels == s.channels
                    &&& t.contents == s.contents
                }
                &&& !open ==> r == Err::<(), ContractError>(ContractError::InvalidInput)
            }
            &&& r is Err ==> t == s
        }),
{
}

/// Creating a job: the channel must exist (`NotFound`), belong to the
/// creator (`Unauthorized`), and the job must be scheduled before its
/// deadline (`InvalidInput`). Then the job is appended, pending, with the
/// next identifier and the given fields, and nothing else changes.
pub proof fn create_job_behaviour(
    s: PlatformState,
    creator: Address,
    channel_id: u64,
    title: Seq<u8>,
    description: Seq<u8>,
    job_type: JobType,
    scheduled_at: u64,
    deadline_at: u64,
    reward_xlm: i128,
    now: u64,
)
    requires
        s.create_job_defined(creator, channel_id, scheduled_at, deadline_at),
    ensures
        ({
            let (t, r) = s.create_job(
                creator,
                channel_id,
                title,
                description,
                job_type,
                scheduled_at,
                deadline_at,
                reward_xlm,
                now,
            );
            let n = s.jobs.len();
            &&& !s.has_channel(channel_id) ==> r == Err::<u64, ContractError>(
                ContractError::NotFound,
            )
            &&& s.has_channel(channel_id) && s.channel(channel_id).owner != creator ==> r == Err::<
                u64,
                ContractError,
            >(ContractError::Unauthorized)
            &&& s.has_channel(channel_id) && s.channel(channel_id).owner == creator && scheduled_at
                >= deadline_at ==> r == Err::<u64, ContractError>(ContractError::InvalidInput)
            &&& s.has_channel(channel_id) && s.channel(channel_id).owner == creator && scheduled_at
                < deadline_at ==> {
                let j = t.jobs[n as int];
                &&& r == Ok::<u64, ContractError>((n + 1) as u64)
                &&& t.jobs.len() == n + 1
                &&& j.id == n + 1
                &&& j.channel_id == channel_id
                &&& j.creator == creator
                &&& j.title == title
                &&& j.description == description
                &&& j.job_type == job_type
                &&& j.status == JobStatus::Pending
                &&& j.scheduled_at == scheduled_at
                &&& j.deadline_at == deadline_at
                &&& j.created_at == now
                &&& j.updated_at == now
                &&& j.reward_xlm == reward_xlm
                &&& forall|i: int| 0 <= i < n ==> #[trigger] t.jobs[i] == s.jobs[i]
                &&& t.channels == s.channels
                &&& t.contents == s.contents
                &&& t.subscribers == s.subscribers
            }
            &&& r is Err ==> t == s
        }),
{
}

// ---------------------------------------------------------------
//  Content and copyright
// ---------------------------------------------------------------

/// The hash check of existing content passes exactly when the given hash
/// equals the registered hash byte for byte and the content stands
/// registered; any other hash fails. Missing content is `NotFound`.
pub proof fn hash_check_compares_whole_hash(
    s: PlatformState,
    content_id: u64,
    hash_to_check: Seq<u8>,
)
    ensures
        !s.has_content(content_id) ==> s.verify_content_hash(content_id, hash_to_check) == Err::<
            bool,
            ContractError,
        >(ContractError::NotFound),
        s.has_content(content_id) ==> (s.verify_content_hash(content_id, hash_to_check) == Ok::<
            bool,
            ContractError,
        >(true) <==> (hash_to_check.len() == s.content(content_id).content_hash.len() && (forall|
            k: int,
        |
            0 <= k < hash_to_check.len() ==> hash_to_check[k] == s.content(
                content_id,
            ).content_hash[k]) && s.content(content_id).copyright_status
            == CopyrightStatus::Registered)),
        s.has_content(content_id) && hash_to_check != s.content(content_id).content_hash
            ==> s.verify_content_hash(content_id, hash_to_check) == Ok::<bool, ContractError>(
            false,
        ),
        s.has_content(content_id) ==> s.verify_content_hash(content_id, hash_to_check) is Ok,
{
    if s.has_content(content_id) {
        let stored = s.content(content_id).content_hash;
        if hash_to_check.len() == stored.len() && (forall|k: int|
            0 <= k < hash_to_check.len() ==> hash_to_check[k] == stored[k]) {
            assert(hash_to_check =~= stored);
        }
    }
}

/// Viewing is open to everyone: a view of content that exists and is not
/// revoked succeeds for every viewer, returns the new total, and counts
/// the view for the content and its channel; the viewer joins the
/// content's viewers, so unique viewers grow exactly on a first view.
/// The only failures are missing content (`NotFound`) and revoked content
/// (`ContentDisputed`), and they change nothing.
pub proof fn any_viewer_may_view(s: PlatformState, viewer: Address, content_id: u64)
    requires
        s.inv(),
        s.record_view_defined(content_id),
    ensures
        ({
            let (t, r) = s.record_view(viewer, content_id);
            &&& !s.has_content(content_id) ==> r == Err::<u64, ContractError>(
                ContractError::NotFound,
            ) && t == s
            &&& s.has_content(content_id) && s.content(content_id).copyright_status
                == CopyrightStatus::Revoked ==> r == Err::<u64, ContractError>(
                ContractError::ContentDisputed,
            ) && t == s
            &&& s.has_content(content_id) && s.content(content_id).copyright_status
                != CopyrightStatus::Revoked ==> {
                let c = s.content(content_id);
                let k = content_id - 1;
                let ch = c.channel_id;
                &&& r == Ok::<u64, ContractError>((c.view_count + 1) as u64)
                &&& t.content(content_id).view_count == c.view_count + 1
                &&& t.content(content_id).copyright_status == c.copyright_status
                &&& t.content(content_id).content_hash == c.content_hash
                &&& t.content(content_id).owner == c.owner
                &&& t.content(content_id).channel_id == c.channel_id
                &&& t.viewers[k] == s.viewers[k].insert(viewer)
                &&& t.viewers[k].len() == s.viewers[k].len() + if s.viewers[k].contains(viewer) {
                    0int
                } else {
                    1int
                }
                &&& t.channel(ch).total_views == s.channel(ch).total_views + 1
                &&& t.channel(ch).owner == s.channel(ch).owner
                &&& t.channel(ch).subscriber_count == s.channel(ch).subscriber_count
                &&& t.channel(ch).content_count == s.channel(ch).content_count
                &&& t.channels.len() == s.channels.len()
                &&& t.contents.len() == s.contents.len()
                &&& forall|i: int|
                    0 <= i < s.contents.len() && i != k ==> #[trigger] t.contents[i]
                        == s.contents[i]
                &&& forall|i: int|
                    0 <= i < s.channels.len() && i != ch - 1 ==> #[trigger] t.channels[i]
                        == s.channels[i]
                &&& t.subscribers == s.subscribers
                &&& t.ownership_claims == s.ownership_claims
                &&& t.jobs == s.jobs
            }
        }),
{
    if s.has_content(content_id) {
        let c = s.content(content_id);
        assert(s.has_channel(c.channel_id));
        let k = content_id - 1;
        assert(s.viewers[k].finite());
        if s.viewers[k].contains(viewer) {
            assert(s.viewers[k].insert(viewer) =~= s.viewers[k]);
        }
    }
}

/// Registering content: the royalty must be at most 100% (`InvalidInput`),
/// the channel must exist (`NotFound`) and belong to the registrant
/// (`Unauthorized`). Then the content is appended, registered, with the
/// next identifier, the given fields, no views, no viewers and no claim;
/// its channel's content count grows by one and nothing else changes.
pub proof fn register_content_behaviour(
    s: PlatformState,
    owner: Address,
    channel_id: u64,
    title: Seq<u8>,
    description: Seq<u8>,
    content_hash: Seq<u8>,
    content_type: Seq<u8>,
    license: LicenseType,
    royalty_bps: u32,
    now: u64,
)
    requires
        s.inv(),
        s.register_content_defined(owner, channel_id, royalty_bps),
    ensures
        ({
            let (t, r) = s.register_content(
                owner,
                channel_id,
                title,
                description,
                content_hash,
                content_type,
                license,
                royalty_bps,
                now,
            );
            let n = s.contents.len();
            &&& royalty_bps > 10_000 ==> r == Err::<u64, ContractError>(
                ContractError::InvalidInput,
            )
            &&& royalty_bps <= 10_000 && !s.has_channel(channel_id) ==> r == Err::<
                u64,
                ContractError,
            >(ContractError::NotFound)
            &&& royalty_bps <= 10_000 && s.has_channel(channel_id) && s.channel(channel_id).owner
                != owner ==> r == Err::<u64, ContractError>(ContractError::Unauthorized)
            &&& royalty_bps <= 10_000 && s.has_channel(channel_id) && s.channel(channel_id).owner
                == owner ==> {
                let c = t.contents[n as int];
                let old_ch = s.channel(channel_id);
                let new_ch = t.channel(channel_id);
                &&& r == Ok::<u64, ContractError>((n + 1) as u64)
                &&& t.contents.len() == n + 1
                &&& c.id == n + 1
                &&& c.channel_id == channel_id
                &&& c.owner == owner
                &&& c.title == title
                &&& c.description == description
                &&& c.content_hash == content_hash
                &&& c.content_type == content_type
                &&& c.license == license
                &&& c.royalty_bps == royalty_bps
                &&& c.copyright_status == CopyrightStatus::Registered
                &&& c.registered_at == now
                &&& c.view_count == 0
                &&& t.viewers[n as int] == Set::<Address>::empty()
                &&& t.ownership_claims[n as int] == None::<Address>
                &&& forall|i: int| 0 <= i < n ==> #[trigger] t.contents[i] == s.contents[i]
                &&& new_ch.content_count == old_ch.content_count + 1
                &&& new_ch.owner == old_ch.owner
                &&& new_ch.royalty_address == old_ch.royalty_address
                &&& new_ch.subscriber_count == old_ch.subscriber_count
                &&& new_ch.total_views == old_ch.total_views
                &&& new_ch.name == old_ch.name
                &&& new_ch.status == old_ch.status
                &&& t.channels.len() == s.channels.len()
                &&& forall|i: int|
                    0 <= i < s.channels.len() && i != channel_id - 1 ==> #[trigger] t.channels[i]
                        == s.channels[i]
                &&& t.subscribers == s.subscribers
                &&& t.jobs == s.jobs
            }
            &&& r is Err ==> t == s
        }),
{
}

/// Disputing content: it must exist (`NotFound`) and stand registered
/// (`InvalidInput`). Then it becomes disputed, the disputer's claim is on
/// file, and nothing else changes.
pub proof fn dispute_content_behaviour(s: PlatformState, disputer: Address, content_id: u64)
    requires
        s.inv(),
    ensures
        ({
            let (t, r) = s.dispute_content(disputer, content_id);
            &&& !s.has_content(content_id) ==> r == Err::<(), ContractError>(
                ContractError::NotFound,
            )
            &&& s.has_content(content_id) && s.content(content_id).copyright_status
                != CopyrightStatus::Registered ==> r == Err::<(), ContractError>(
                ContractError::InvalidInput,
            )
            &&& s.has_content(content_id) && s.content(content_id).copyright_status
                == CopyrightStatus::Registered ==> {
                let c = s.content(content_id);
                let d = t.content(content_id);
                &&& r == Ok::<(), ContractError>(())
                &&& d.copyright_status == CopyrightStatus::Disputed
                &&& t.ownership_claims[content_id - 1] == Some(disputer)
                &&& d.id == c.id && d.channel_id == c.channel_id && d.owner == c.owner
                &&& d.content_hash == c.content_hash && d.title == c.title
                &&& d.view_count == c.view_count && d.royalty_bps == c.royalty_bps
                &&& t.contents.len() == s.contents.len()
                &&& forall|i: int|
                    0 <= i < s.contents.len() && i != content_id - 1 ==> #[trigger] t.contents[i]
                        == s.contents[i] && t.ownership_claims[i] == s.ownership_claims[i]
                &&& t.channels == s.channels
                &&& t.viewers == s.viewers
                &&& t.jobs == s.jobs
            }
            &&& r is Err ==> t == s
        }),
{
}

/// Resolving a dispute: the content must exist (`NotFound`) and be
/// disputed (`InvalidInput`). Then it stands registered again if the
/// original is upheld and is revoked otherwise; the claim is dropped and
/// nothing else changes.
pub proof fn resolve_dispute_behaviour(s: PlatformState, content_id: u64, uphold_original: bool)
    requires
        s.inv(),
    ensures
        ({
            let (t, r) = s.resolve_dispute(content_id, uphold_original);
            &&& !s.has_content(content_id) ==> r == Err::<(), ContractError>(
                ContractError::NotFound,
            )
            &&& s.has_content(content_id) && s.content(content_id).copyright_status
                != CopyrightStatus::Disputed ==> r == Err::<(), ContractError>(
                ContractError::InvalidInput,
            )
            &&& s.has_content(content_id) && s.content(content_id).copyright_status
                == CopyrightStatus::Disputed ==> {
                let c = s.content(content_id);
                let d = t.content(content_id);
                &&& r == Ok::<(), ContractError>(())
                &&& uphold_original ==> d.copyright_status == CopyrightStatus::Registered
                &&& !uphold_original ==> d.copyright_status == CopyrightStatus::Revoked
                &&& t.ownership_claims[content_id - 1] == None::<Address>
                &&& d.id == c.id && d.channel_id == c.channel_id && d.owner == c.owner
                &&& d.content_hash == c.content_hash && d.title == c.title
                &&& d.view_count == c.view_count && d.royalty_bps == c.royalty_bps
                &&& t.contents.len() == s.contents.len()
                &&& forall|i: int|
                    0 <= i < s.contents.len() && i != content_id - 1 ==> #[trigger] t.contents[i]
                        == s.contents[i] && t.ownership_claims[i] == s.ownership_claims[i]
                &&& t.channels == s.channels
                &&& t.viewers == s.viewers
                &&& t.jobs == s.jobs
            }
            &&& r is Err ==> t == s
        }),
{
}

/// A royalty payment: missing content is `NotFound`, disputed or revoked
/// content is `ContentDisputed`; on any other content of a well-formed
/// platform the whole amount goes from the payer, in the given token, to
/// the royalty address of the content's channel.
pub proof fn pay_royalty_behaviour(
    s: PlatformState,
    payer: Address,
    content_id: u64,
    xlm_token: Address,
    amount_stroops: i128,
)
    requires
        s.inv(),
    ensures
        ({
            let r = s.pay_royalty(payer, content_id, xlm_token, amount_stroops);
            &&& !s.has_content(content_id) ==> r is Err && r->Err_0 == ContractError::NotFound
            &&& s.has_content(content_id) && (s.content(content_id).copyright_status
                == CopyrightStatus::Disputed || s.content(content_id).copyright_status
                == CopyrightStatus::Revoked) ==> r is Err && r->Err_0
                == ContractError::ContentDisputed
            &&& s.has_content(content_id) && s.content(content_id).copyright_status
                != CopyrightStatus::Disputed && s.content(content_id).copyright_status
                != CopyrightStatus::Revoked ==> {
                &&& r is Ok
                &&& r->Ok_0.amount == amount_stroops
                &&& r->Ok_0.from == payer
                &&& r->Ok_0.token == xlm_token
                &&& r->Ok_0.to == s.channel(s.content(content_id).channel_id).royalty_address
            }
        }),
{
    if s.has_content(content_id) {
        assert(s.has_channel(s.contents[content_id - 1].channel_id));
    }
}

// ---------------------------------------------------------------
//  Channels and subscriptions
// ---------------------------------------------------------------

/// Updating a channel: it must exist (`NotFound`), belong to the caller
/// (`Unauthorized`) and not be suspended (`ChannelSuspended`). Then only
/// its name, description and category change, to the given values; its
/// owner, royalty address, status, counts and creation time stay, and
/// nothing else on the platform changes.
pub proof fn update_channel_changes_only_metadata(
    s: PlatformState,
    owner: Address,
    channel_id: u64,
    name: Seq<u8>,
    description: Seq<u8>,
    category: Seq<u8>,
)
    ensures
        ({
            let (t, r) = s.update_channel(owner, channel_id, name, description, category);
            &&& !s.has_channel(channel_id) ==> r == Err::<(), ContractError>(
                ContractError::NotFound,
            )
            &&& s.has_channel(channel_id) && s.channel(channel_id).owner != owner ==> r == Err::<
                (),
                ContractError,
            >(ContractError::Unauthorized)
            &&& s.has_channel(channel_id) && s.channel(channel_id).owner == owner && s.channel(
                channel_id,
            ).status == ChannelStatus::Suspended ==> r == Err::<(), ContractError>(
                ContractError::ChannelSuspended,
            )
            &&& s.has_channel(channel_id) && s.channel(channel_id).owner == owner && s.channel(
                channel_id,
            ).status != ChannelStatus::Suspended ==> {
                let old = s.channel(channel_id);
                let new = t.channel(channel_id);
                &&& r == Ok::<(), ContractError>(())
                &&& new.name == name
                &&& new.description == description
                &&& new.category == category
                &&& new.id == old.id
                &&& new.owner == old.owner
                &&& new.royalty_address == old.royalty_address
                &&& new.status == old.status
                &&& new.created_at == old.created_at
                &&& new.subscriber_count == old.subscriber_count
                &&& new.total_views == old.total_views
                &&& new.content_count == old.content_count
                &&& t.channels.len() == s.channels.len()
                &&& forall|i: int|
                    0 <= i < s.channels.len() && i != channel_id - 1 ==> #[trigger] t.channels[i]
                        == s.channels[i]
                &&& t.subscribers == s.subscribers
                &&& t.contents == s.contents
                &&& t.viewers == s.viewers
                &&& t.ownership_claims == s.ownership_claims
                &&& t.jobs == s.jobs
            }
            &&& r is Err ==> t == s
        }),
{
}

/// Creating a channel: an owner who already has one is refused with
/// `AlreadyExists`. Otherwise the channel is appended, active, with the
/// next identifier, the given fields, no subscribers, views or content,
/// and nothing else changes.
pub proof fn create_channel_behaviour(
    s: PlatformState,
    owner: Address,
    name: Seq<u8>,
    description: Seq<u8>,
    category: Seq<u8>,
    royalty_address: Address,
    now: u64,
)
    requires
        s.inv(),
        s.create_channel_defined(owner),
    ensures
        ({
            let (t, r) = s.create_channel(owner, name, description, category, royalty_address, now);
            let n = s.channels.len();
            &&& (exists|i: int| 0 <= i < n && #[trigger] s.channels[i].owner == owner) ==> r
                == Err::<u64, ContractError>(ContractError::AlreadyExists) && t == s
            &&& (forall|i: int| 0 <= i < n ==> #[trigger] s.channels[i].owner != owner) ==> {
                let c = t.channels[n as int];
                &&& r == Ok::<u64, ContractError>((n + 1) as u64)
                &&& t.channels.len() == n + 1
                &&& c.id == n + 1
                &&& c.owner == owner
                &&& c.name == name
                &&& c.description == description
                &&& c.category == category
                &&& c.subscriber_count == 0
                &&& c.total_views == 0
                &&& c.content_count == 0
                &&& c.created_at == now
                &&& c.status == ChannelStatus::Active
                &&& c.royalty_address == royalty_address
                &&& t.subscribers[n as int] == Set::<Address>::empty()
                &&& forall|i: int| 0 <= i < n ==> #[trigger] t.channels[i] == s.channels[i]
                &&& forall|i: int| 0 <= i < n ==> #[trigger] t.subscribers[i] == s.subscribers[i]
                &&& t.contents == s.contents
                &&& t.viewers == s.viewers
                &&& t.ownership_claims == s.ownership_claims
                &&& t.jobs == s.jobs
            }
        }),
{
}

/// Subscribing: a user not yet subscribed to an existing channel always
/// succeeds; the result is the old subscriber count plus one, the user is
/// then subscribed, and no other subscription changes. The only failures
/// are `AlreadyExists` (already subscribed) and `NotFound` (no such
/// channel), and they change nothing.
pub proof fn any_user_may_subscribe(s: PlatformState, user: Address, channel_id: u64)
    requires
        s.inv(),
        s.subscribe_defined(user, channel_id),
    ensures
        ({
            let (t, r) = s.subscribe(user, channel_id);
            &&& s.is_subscribed(user, channel_id) ==> r == Err::<u64, ContractError>(
                ContractError::AlreadyExists,
            ) && t == s
            &&& !s.has_channel(channel_id) ==> r == Err::<u64, ContractError>(
                ContractError::NotFound,
            ) && t == s
            &&& s.has_channel(channel_id) && !s.is_subscribed(user, channel_id) ==> {
                let old = s.channel(channel_id);
                let new = t.channel(channel_id);
                &&& r == Ok::<u64, ContractError>((old.subscriber_count + 1) as u64)
                &&& t.is_subscribed(user, channel_id)
                &&& new.subscriber_count == old.subscriber_count + 1
                &&& new.owner == old.owner && new.name == old.name
                &&& new.royalty_address == old.royalty_address && new.status == old.status
                &&& new.total_views == old.total_views
                &&& new.content_count == old.content_count
                &&& forall|u: Address, c: u64|
                    !(u == user && c == channel_id) ==> #[trigger] t.is_subscribed(u, c)
                        == s.is_subscribed(u, c)
                &&& t.channels.len() == s.channels.len()
                &&& forall|i: int|
                    0 <= i < s.channels.len() && i != channel_id - 1 ==> #[trigger] t.channels[i]
                        == s.channels[i]
                &&& t.contents == s.contents
                &&& t.jobs == s.jobs
            }
        }),
{
}

/// Unsubscribing: a subscribed user always succeeds; the user is then no
/// longer subscribed, no other subscription changes, and the result is
/// the channel's new subscriber count. An unsubscribed user gets
/// `NotFound`, and nothing changes.
pub proof fn subscriber_may_unsubscribe(s: PlatformState, user: Address, channel_id: u64)
    requires
        s.inv(),
    ensures
        ({
            let (t, r) = s.unsubscribe(user, channel_id);
            &&& !s.is_subscribed(user, channel_id) ==> r == Err::<u64, ContractError>(
                ContractError::NotFound,
            ) && t == s
            &&& s.is_subscribed(user, channel_id) ==> {
                let old = s.channel(channel_id);
                let new = t.channel(channel_id);
                &&& r == Ok::<u64, ContractError>((old.subscriber_count - 1) as u64)
                &&& old.subscriber_count >= 1
                &&& new.subscriber_count == old.subscriber_count - 1
                &&& !t.is_subscribed(user, channel_id)
                &&& new.owner == old.owner && new.name == old.name
                &&& new.royalty_address == old.royalty_address && new.status == old.status
                &&& new.total_views == old.total_views
                &&& new.content_count == old.content_count
                &&& forall|u: Address, c: u64|
                    !(u == user && c == channel_id) ==> #[trigger] t.is_subscribed(u, c)
                        == s.is_subscribed(u, c)
                &&& t.channels.len() == s.channels.len()
                &&& forall|i: int|
                    0 <= i < s.channels.len() && i != channel_id - 1 ==> #[trigger] t.channels[i]
                        == s.channels[i]
                &&& t.contents == s.contents
                &&& t.jobs == s.jobs
            }
        }),
{
    if s.is_subscribed(user, channel_id) {
        let set = s.subscribers[channel_id - 1];
        assert(set.remove(user).len() == set.len() - 1);
    }
}

// ---------------------------------------------------------------
//  Queries
// ---------------------------------------------------------------

/// Lookups by identifier give the record with that identifier, and fail
/// with `NotFound` exactly when there is none.
pub proof fn lookups_find_the_identified_record(s: PlatformState, id: u64, now: u64)
    requires
        s.inv(),
    ensures
        1 <= id <= s.channels.len() ==> s.get_channel(id) == Ok::<
            crate::types::ChannelView,
            ContractError,
        >(s.channels[id - 1]),
        1 <= id <= s.contents.len() ==> s.get_content(id) == Ok::<
            crate::types::ContentView,
            ContractError,
        >(s.contents[id - 1]),
        1 <= id <= s.jobs.len() ==> s.get_job(id) == Ok::<crate::types::JobView, ContractError>(
            s.jobs[id - 1],
        ),
        s.get_channel(id) is Ok <==> 1 <= id <= s.channels.len(),
        s.get_channel(id) matches Ok(c) ==> c.id == id,
        s.get_channel(id) is Err ==> s.get_channel(id)->Err_0 == ContractError::NotFound,
        s.get_content(id) is Ok <==> 1 <= id <= s.contents.len(),
        s.get_content(id) matches Ok(c) ==> c.id == id,
        s.get_content(id) is Err ==> s.get_content(id)->Err_0 == ContractError::NotFound,
        s.get_job(id) is Ok <==> 1 <= id <= s.jobs.len(),
        s.get_job(id) matches Ok(j) ==> j.id == id,
        s.get_job(id) is Err ==> s.get_job(id)->Err_0 == ContractError::NotFound,
        s.get_viewer_stats(id, now) matches Ok(v) ==> {
            &&& v.content_id == id
            &&& v.total_views == s.get_content(id)->Ok_0.view_count
            &&& v.unique_viewers == s.viewers[id - 1].len()
            &&& v.unique_viewers <= v.total_views
            &&& v.last_viewed_at == now
        },
        s.get_viewer_stats(id, now) is Ok <==> 1 <= id <= s.contents.len(),
        s.get_channel_views(id) matches Ok(v) ==> v == s.get_channel(id)->Ok_0.total_views,
        s.get_channel_views(id) is Ok <==> 1 <= id <= s.channels.len(),
        s.get_subscriber_count(id) matches Ok(n) ==> n == s.subscribers[id - 1].len(),
        s.get_subscriber_count(id) is Ok <==> 1 <= id <= s.channels.len(),
{
    if 1 <= id <= s.contents.len() {
        assert(s.contents[id - 1].id == id);
    }
    if 1 <= id <= s.channels.len() {
        assert(s.channels[id - 1].id == id);
    }
    if 1 <= id <= s.jobs.len() {
        assert(s.jobs[id - 1].id == id);
    }
}

/// The owner lookup finds the channel whose owner is the given address,
/// and fails with `NotFound` exactly when no channel has that owner.
pub proof fn owner_lookup_finds_owned_channel(s: PlatformState, owner: Address)
    requires
        s.inv(),
    ensures
        s.get_channel_by_owner(owner) is Ok <==> exists|i: int|
            0 <= i < s.channels.len() && #[trigger] s.channels[i].owner == owner,
        s.get_channel_by_owner(owner) matches Ok(id) ==> s.has_channel(id) && s.channel(id).owner
            == owner,
        s.get_channel_by_owner(owner) is Err ==> s.get_channel_by_owner(owner)->Err_0
            == ContractError::NotFound,
{
    if s.owns_a_channel(owner) {
        let i = choose|i: int| 0 <= i < s.channels.len() && #[trigger] s.channels[i].owner == owner;
        assert(s.channels[i].id == i + 1);
    }
}

/// A user is subscribed exactly when the channel exists and the user is
/// among its subscribers.
pub proof fn subscription_means_membership(s: PlatformState, user: Address, channel_id: u64)
    ensures
        s.is_subscribed(user, channel_id) <==> (1 <= channel_id <= s.channels.len()
            && s.subscribers[channel_id - 1].contains(user)),
{
}

/// The only inputs the operations leave out are those on which a counter
/// would pass `u64::MAX` (where a call aborts): the next identifier, a
/// subscriber count, a content count or a view count.
pub proof fn operations_are_defined_below_counter_limits(
    s: PlatformState,
    who: Address,
    channel_id: u64,
    content_id: u64,
    royalty_bps: u32,
    scheduled_at: u64,
    deadline_at: u64,
)
    ensures
        s.create_channel_defined(who) <==> ((forall|i: int|
            0 <= i < s.channels.len() ==> #[trigger] s.channels[i].owner != who)
            ==> s.channels.len() < u64::MAX),
        s.subscribe_defined(who, channel_id) <==> (1 <= channel_id <= s.channels.len()
            && !s.subscribers[channel_id - 1].contains(who) ==> s.channels[channel_id
            - 1].subscriber_count < u64::MAX),
        s.register_content_defined(who, channel_id, royalty_bps) <==> (royalty_bps <= 10_000 && 1
            <= channel_id <= s.channels.len() && s.channels[channel_id - 1].owner == who ==> (
        s.contents.len() < u64::MAX && s.channels[channel_id - 1].content_count < u64::MAX)),
        s.record_view_defined(content_id) <==> (1 <= content_id <= s.contents.len()
            && s.contents[content_id - 1].copyright_status != CopyrightStatus::Revoked ==> (
        s.contents[content_id - 1].view_count < u64::MAX && (1 <= s.contents[content_id
            - 1].channel_id <= s.channels.len() ==> s.channels[s.contents[content_id
            - 1].channel_id - 1].total_views < u64::MAX))),
        s.create_job_defined(who, channel_id, scheduled_at, deadline_at) <==> (1 <= channel_id
            <= s.channels.len() && s.channels[channel_id - 1].owner == who && scheduled_at
            < deadline_at ==> s.jobs.len() < u64::MAX),
{
}

} // verus!
