//! Properties of the platform that span operations or hold of every state.
use vstd::prelude::*;

use crate::history::{
    creations, lemma_run_keeps_inv, lemma_step_frame, run, touches_content, touches_job,
    views_recorded, Call,
};
use crate::model::{contents_in, views_in, PlatformState};
use crate::types::{
    Address, ChannelStatus, ChannelView, ContentView, ContractError, CopyrightStatus, JobStatus,
    JobType, JobView, LicenseType, RoyaltyTransfer, ViewerStats,
};

verus! {

/// Unsubscribing right after a successful subscription restores the
/// platform exactly, and reports the subscriber count from before.
pub proof fn unsubscribe_undoes_subscribe(s: PlatformState, user: Address, channel_id: u64)
    requires
        s.inv(),
        s.subscribe_defined(user, channel_id),
        s.subscribe(user, channel_id).1 is Ok,
    ensures
        s.subscribe(user, channel_id).0.unsubscribe(user, channel_id) == (
            s,
            Ok::<u64, ContractError>(s.channel(channel_id).subscriber_count),
        ),
{
    let t = s.subscribe(user, channel_id).0;
    let u = t.unsubscribe(user, channel_id).0;
    let k = channel_id - 1;
    assert(t.is_subscribed(user, channel_id));
    assert(u.subscribers[k] =~= s.subscribers[k]);
    assert(u.channels[k] == s.channels[k]);
    assert(u.channels =~= s.channels);
    assert(u.subscribers =~= s.subscribers);
    assert(u =~= s);
}

/// Unsubscribing a subscriber lowers the channel's count by exactly one.
pub proof fn unsubscribe_lowers_count_by_one(s: PlatformState, user: Address, channel_id: u64)
    requires
        s.inv(),
        s.is_subscribed(user, channel_id),
    ensures
        s.channel(channel_id).subscriber_count >= 1,
        s.unsubscribe(user, channel_id).1 == Ok::<u64, ContractError>(
            (s.channel(channel_id).subscriber_count - 1) as u64,
        ),
{
    let set = s.subscribers[channel_id - 1];
    assert(set.remove(user).len() == set.len() - 1);
}

/// A channel's subscriber count is the number of its subscribers.
pub proof fn subscriber_count_is_number_of_subscribers(s: PlatformState, channel_id: u64)
    requires
        s.inv(),
        s.has_channel(channel_id),
    ensures
        s.get_subscriber_count(channel_id) == Ok::<u64, ContractError>(
            s.subscribers[channel_id - 1].len() as u64,
        ),
{
}

/// A channel's total views are the sum of the views of its content, and
/// its content count is the number of its content records.
pub proof fn channel_tallies_match_content(s: PlatformState, channel_id: u64)
    requires
        s.inv(),
        s.has_channel(channel_id),
    ensures
        s.get_channel_views(channel_id) == Ok::<u64, ContractError>(
            views_in(s.contents, channel_id) as u64,
        ),
        s.channel(channel_id).content_count == contents_in(s.contents, channel_id),
{
    assert(s.channels[channel_id - 1].id == channel_id);
}

/// Unique viewers of a content never exceed its total views.
pub proof fn unique_viewers_within_total_views(s: PlatformState, content_id: u64, now: u64)
    requires
        s.inv(),
        s.has_content(content_id),
    ensures
        s.get_viewer_stats(content_id, now) matches Ok(stats) && stats.unique_viewers
            <= stats.total_views,
{
}

/// An owner who has a channel cannot create a second one.
pub proof fn one_channel_per_owner(
    s: PlatformState,
    owner: Address,
    name: Seq<u8>,
    description: Seq<u8>,
    category: Seq<u8>,
    royalty_address: Address,
    now: u64,
    name2: Seq<u8>,
    description2: Seq<u8>,
    category2: Seq<u8>,
    royalty_address2: Address,
    now2: u64,
)
    requires
        s.create_channel(owner, name, description, category, royalty_address, now).1 is Ok,
    ensures
        ({
            let t = s.create_channel(owner, name, description, category, royalty_address, now).0;
            t.create_channel(owner, name2, description2, category2, royalty_address2, now2) == (
                t,
                Err::<u64, ContractError>(ContractError::AlreadyExists),
            )
        }),
{
    let t = s.create_channel(owner, name, description, category, royalty_address, now).0;
    assert(t.channels[s.channels.len() as int].owner == owner);
}

/// A new channel gets the next identifier, is found by its owner, and
/// starts active with no subscribers, views or content.
pub proof fn created_channel_is_readable(
    s: PlatformState,
    owner: Address,
    name: Seq<u8>,
    description: Seq<u8>,
    category: Seq<u8>,
    royalty_address: Address,
    now: u64,
)
    requires
        s.inv(),
        s.create_channel_defined(owner),
        s.create_channel(owner, name, description, category, royalty_address, now).1 is Ok,
    ensures
        ({
            let (t, r) = s.create_channel(owner, name, description, category, royalty_address, now);
            let id = (s.channels.len() + 1) as u64;
            &&& r == Ok::<u64, ContractError>(id)
            &&& t.get_channel(id) == Ok::<ChannelView, ContractError>(
                ChannelView {
                    id,
                    owner,
                    name,
                    description,
                    category,
                    subscriber_count: 0,
                    total_views: 0,
                    content_count: 0,
                    created_at: now,
                    status: ChannelStatus::Active,
                    royalty_address,
                },
            )
            &&& t.get_channel_by_owner(owner) == Ok::<u64, ContractError>(id)
            &&& t.get_subscriber_count(id) == Ok::<u64, ContractError>(0)
            &&& t.get_channel_views(id) == Ok::<u64, ContractError>(0)
            &&& t.channels.len() == id
        }),
{
    crate::model::lemma_create_channel_keeps_inv(
        s,
        owner,
        name,
        description,
        category,
        royalty_address,
        now,
    );
    let t = s.create_channel(owner, name, description, category, royalty_address, now).0;
    let n = s.channels.len() as int;
    assert(t.channels[n].owner == owner);
    let i = choose|i: int| 0 <= i < t.channels.len() && #[trigger] t.channels[i].owner == owner;
    assert(i == n);
}

/// New content gets the next identifier, stands registered with no views,
/// verifies against its own hash, and counts toward its channel.
pub proof fn registered_content_is_readable(
    s: PlatformState,
    owner: Address,
    channel_id: u64,
    title: Seq<u8>,
    description: Seq<u8>,
    content_hash: Seq<u8>,
    content_type: Seq<u8>,
    license: LicenseType,
    royalty_bps: u32,
    now: u64,
    later: u64,
)
    requires
        s.inv(),
        s.register_content_defined(owner, channel_id, royalty_bps),
        s.register_content(
            owner,
            channel_id,
            title,
            description,
            content_hash,
            content_type,
            license,
            royalty_bps,
            now,
        ).1 is Ok,
    ensures
        ({
            let (t, r) = s.register_content(
                owner,
                channel_id,
                title,
                description,
                content_hash,
                content_type,
                license,
                royalty_bps,
                now,
            );
            let id = (s.contents.len() + 1) as u64;
            &&& r == Ok::<u64, ContractError>(id)
            &&& t.get_content(id) == Ok::<ContentView, ContractError>(
                ContentView {
                    id,
                    channel_id,
                    owner,
                    title,
                    description,
                    content_hash,
                    content_type,
                    license,
                    royalty_bps,
                    copyright_status: CopyrightStatus::Registered,
                    registered_at: now,
                    view_count: 0,
                },
            )
            &&& t.verify_content_hash(id, content_hash) == Ok::<bool, ContractError>(true)
            &&& t.get_viewer_stats(id, later) == Ok::<ViewerStats, ContractError>(
                ViewerStats { content_id: id, total_views: 0, unique_viewers: 0, last_viewed_at: later },
            )
            &&& t.channel(channel_id).content_count == s.channel(channel_id).content_count + 1
        }),
{
}

/// A new job gets the next identifier and starts pending.
pub proof fn created_job_is_readable(
    s: PlatformState,
    creator: Address,
    channel_id: u64,
    title: Seq<u8>,
    description: Seq<u8>,
    job_type: JobType,
    scheduled_at: u64,
    deadline_at: u64,
    reward_xlm: i128,
    now: u64,
)
    requires
        s.create_job_defined(creator, channel_id, scheduled_at, deadline_at),
        s.create_job(
            creator,
            channel_id,
            title,
            description,
            job_type,
            scheduled_at,
            deadline_at,
            reward_xlm,
            now,
        ).1 is Ok,
    ensures
        ({
            let (t, r) = s.create_job(
                creator,
                channel_id,
                title,
                description,
                job_type,
                scheduled_at,
                deadline_at,
                reward_xlm,
                now,
            );
            let id = (s.jobs.len() + 1) as u64;
            &&& r == Ok::<u64, ContractError>(id)
            &&& t.get_job(id) == Ok::<JobView, ContractError>(
                JobView {
                    id,
                    channel_id,
                    creator,
                    title,
                    description,
                    job_type,
                    status: JobStatus::Pending,
                    scheduled_at,
                    deadline_at,
                    created_at: now,
                    updated_at: now,
                    reward_xlm,
                },
            )
        }),
{
}

/// A recorded view shows in the content's statistics: total views grow by
/// one, unique viewers by one exactly on the viewer's first view of the
/// content, and the channel's total views by one. Afterwards the viewer
/// has viewed the content.
pub proof fn recorded_view_is_counted(
    s: PlatformState,
    viewer: Address,
    content_id: u64,
    now: u64,
)
    requires
        s.inv(),
        s.record_view_defined(content_id),
        s.record_view(viewer, content_id).1 is Ok,
    ensures
        ({
            let (t, r) = s.record_view(viewer, content_id);
            let before = s.get_viewer_stats(content_id, now)->Ok_0;
            let ch = s.content(content_id).channel_id;
            &&& r == Ok::<u64, ContractError>((before.total_views + 1) as u64)
            &&& t.get_viewer_stats(content_id, now) == Ok::<ViewerStats, ContractError>(
                ViewerStats {
                    content_id,
                    total_views: (before.total_views + 1) as u64,
                    unique_viewers: if s.has_viewed(viewer, content_id) {
                        before.unique_viewers
                    } else {
                        (before.unique_viewers + 1) as u64
                    },
                    last_viewed_at: now,
                },
            )
            &&& t.get_channel_views(ch) == Ok::<u64, ContractError>(
                (s.channel(ch).total_views + 1) as u64,
            )
            &&& t.has_viewed(viewer, content_id)
        }),
{
    let k = content_id - 1;
    let seen = s.viewers[k];
    if seen.contains(viewer) {
        assert(seen.insert(viewer) =~= seen);
    }
    crate::model::lemma_record_view_keeps_inv(s, viewer, content_id);
}

/// Upholding a dispute right after it was filed restores the platform
/// exactly: the content stands registered again and the claim is gone.
pub proof fn upheld_dispute_restores_content(s: PlatformState, disputer: Address, content_id: u64)
    requires
        s.inv(),
        s.dispute_content(disputer, content_id).1 is Ok,
    ensures
        s.dispute_content(disputer, content_id).0.resolve_dispute(content_id, true) == (
            s,
            Ok::<(), ContractError>(()),
        ),
{
    let t = s.dispute_content(disputer, content_id).0;
    let u = t.resolve_dispute(content_id, true).0;
    let k = content_id - 1;
    assert(u.contents[k] == s.contents[k]);
    assert(u.contents =~= s.contents);
    assert(u.ownership_claims =~= s.ownership_claims);
    assert(u =~= s);
}

/// Revoked content stays revoked: it can be neither disputed nor
/// resolved again, is not viewable, earns no royalty and fails every hash
/// check.
pub proof fn revoked_content_is_final(
    s: PlatformState,
    content_id: u64,
    disputer: Address,
    uphold_original: bool,
    viewer: Address,
    payer: Address,
    xlm_token: Address,
    amount_stroops: i128,
    hash_to_check: Seq<u8>,
)
    requires
        s.has_content(content_id),
        s.content(content_id).copyright_status == CopyrightStatus::Revoked,
    ensures
        s.dispute_content(disputer, content_id) == (
            s,
            Err::<(), ContractError>(ContractError::InvalidInput),
        ),
        s.resolve_dispute(content_id, uphold_original) == (
            s,
            Err::<(), ContractError>(ContractError::InvalidInput),
        ),
        s.record_view(viewer, content_id) == (
            s,
            Err::<u64, ContractError>(ContractError::ContentDisputed),
        ),
        s.pay_royalty(payer, content_id, xlm_token, amount_stroops) == Err::<
            RoyaltyTransfer,
            ContractError,
        >(ContractError::ContentDisputed),
        s.verify_content_hash(content_id, hash_to_check) == Ok::<bool, ContractError>(false),
{
}

/// A job that is completed, cancelled or failed never changes status.
pub proof fn finished_jobs_are_final(
    s: PlatformState,
    caller: Address,
    job_id: u64,
    new_status: JobStatus,
    now: u64,
)
    requires
        s.has_job(job_id),
        s.job(job_id).status == JobStatus::Completed || s.job(job_id).status
            == JobStatus::Cancelled || s.job(job_id).status == JobStatus::Failed,
    ensures
        s.update_job_status(caller, job_id, new_status, now).0 == s,
        s.update_job_status(caller, job_id, new_status, now).1 is Err,
        s.cancel_job(caller, job_id, now).0 == s,
        s.cancel_job(caller, job_id, now).1 is Err,
{
}

/// Royalties on content that stands registered are always payable: the
/// whole amount goes from the payer to the royalty address of the
/// content's channel.
pub proof fn royalty_goes_to_channel(
    s: PlatformState,
    payer: Address,
    content_id: u64,
    xlm_token: Address,
    amount_stroops: i128,
)
    requires
        s.inv(),
        s.royalty_payable(content_id),
    ensures
        s.pay_royalty(payer, content_id, xlm_token, amount_stroops) == Ok::<
            RoyaltyTransfer,
            ContractError,
        >(
            RoyaltyTransfer {
                token: xlm_token,
                from: payer,
                to: s.channel(s.content(content_id).channel_id).royalty_address,
                amount: amount_stroops,
            },
        ),
{
    assert(s.has_channel(s.contents[content_id - 1].channel_id));
}

/// An operation that fails leaves the platform exactly as it was.
pub proof fn failed_operations_change_nothing(
    s: PlatformState,
    who: Address,
    other: Address,
    id: u64,
    texts: (Seq<u8>, Seq<u8>, Seq<u8>, Seq<u8>),
    license: LicenseType,
    royalty_bps: u32,
    flag: bool,
    job_type: JobType,
    job_status: JobStatus,
    times: (u64, u64, u64),
    reward_xlm: i128,
)
    ensures
        ({
            let (a, b, c, d) = texts;
            let (t0, t1, t2) = times;
            &&& s.create_channel(who, a, b, c, other, t0).1 is Err ==> s.create_channel(
                who,
                a,
                b,
                c,
                other,
                t0,
            ).0 == s
            &&& s.update_channel(who, id, a, b, c).1 is Err ==> s.update_channel(who, id, a, b, c).0
                == s
            &&& s.subscribe(who, id).1 is Err ==> s.subscribe(who, id).0 == s
            &&& s.unsubscribe(who, id).1 is Err ==> s.unsubscribe(who, id).0 == s
            &&& s.register_content(who, id, a, b, c, d, license, royalty_bps, t0).1 is Err
                ==> s.register_content(who, id, a, b, c, d, license, royalty_bps, t0).0 == s
            &&& s.dispute_content(who, id).1 is Err ==> s.dispute_content(who, id).0 == s
            &&& s.resolve_dispute(id, flag).1 is Err ==> s.resolve_dispute(id, flag).0 == s
            &&& s.record_view(other, id).1 is Err ==> s.record_view(other, id).0 == s
            &&& s.create_job(who, id, a, b, job_type, t0, t1, reward_xlm, t2).1 is Err
                ==> s.create_job(who, id, a, b, job_type, t0, t1, reward_xlm, t2).0 == s
            &&& s.update_job_status(who, id, job_status, t0).1 is Err ==> s.update_job_status(
                who,
                id,
                job_status,
                t0,
            ).0 == s
            &&& s.cancel_job(who, id, t0).1 is Err ==> s.cancel_job(who, id, t0).0 == s
        }),
{
}

// ---------------------------------------------------------------
//  Laws over sequences of calls
// ---------------------------------------------------------------

/// Every state reached from the empty platform by any sequence of calls
/// satisfies the invariant: subscriber counts are the numbers of
/// subscribers, channel content counts and total views tally the channel's
/// content, unique viewers never outnumber views, a claim is on file
/// exactly while content is disputed, and identifiers, channels and owners
/// line up.
pub proof fn reachable_states_satisfy_invariant(calls: Seq<Call>)
    ensures
        run(PlatformState::empty(), calls).inv(),
{
    lemma_run_keeps_inv(PlatformState::empty(), calls);
}

/// No sequence of calls ever puts content in the `Resolved` status.
pub proof fn resolved_never_occurs(calls: Seq<Call>, content_id: u64)
    ensures
        ({
            let t = run(PlatformState::empty(), calls);
            t.has_content(content_id) ==> t.content(content_id).copyright_status
                != CopyrightStatus::Resolved
        }),
{
    reachable_states_satisfy_invariant(calls);
    let t = run(PlatformState::empty(), calls);
    if t.has_content(content_id) {
        assert(t.contents[content_id - 1] == t.content(content_id));
    }
}

/// Once an owner's channel exists, every later sequence of calls leaves
/// the owner's lookup pointing at it, and the channel still has that owner.
pub proof fn owner_lookup_persists(s: PlatformState, calls: Seq<Call>, owner: Address, id: u64)
    requires
        s.inv(),
        s.get_channel_by_owner(owner) == Ok::<u64, ContractError>(id),
    ensures
        run(s, calls).get_channel_by_owner(owner) == Ok::<u64, ContractError>(id),
        run(s, calls).get_channel(id) matches Ok(c) && c.owner == owner,
    decreases calls.len(),
{
    let i = choose|i: int| 0 <= i < s.channels.len() && #[trigger] s.channels[i].owner == owner;
    assert(s.channels[i].id == i + 1);
    if calls.len() > 0 {
        owner_lookup_persists(s, calls.drop_last(), owner, id);
    }
    lemma_run_keeps_inv(s, calls);
    let t = run(s, calls);
    if calls.len() > 0 {
        let t0 = run(s, calls.drop_last());
        lemma_step_frame(t0, calls.last());
        assert(t0.channels[i].owner == owner);
        assert(t.channels[i].owner == owner);
    }
    assert(t.channels[i].owner == owner);
    assert(t.channels[i].id == id);
    let k = choose|k: int| 0 <= k < t.channels.len() && #[trigger] t.channels[k].owner == owner;
    assert(k == i);
}

/// An owner without a channel stays without one through every sequence of
/// calls that does not create a channel for that owner.
pub proof fn unknown_owner_stays_unknown(s: PlatformState, calls: Seq<Call>, owner: Address)
    requires
        s.get_channel_by_owner(owner) == Err::<u64, ContractError>(ContractError::NotFound),
        forall|k: int|
            0 <= k < calls.len() ==> !(#[trigger] calls[k] matches Call::CreateChannel {
                owner: o,
                ..
            } && o == owner),
    ensures
        run(s, calls).get_channel_by_owner(owner) == Err::<u64, ContractError>(
            ContractError::NotFound,
        ),
    decreases calls.len(),
{
    if calls.len() > 0 {
        let d = calls.drop_last();
        assert forall|k: int| 0 <= k < d.len() implies !(#[trigger] d[k] matches Call::CreateChannel {
            owner: o,
            ..
        } && o == owner) by {
            assert(d[k] == calls[k]);
        }
        unknown_owner_stays_unknown(s, d, owner);
        let t0 = run(s, d);
        let call = calls.last();
        lemma_step_frame(t0, call);
        let t = run(s, calls);
        assert(!(calls[calls.len() - 1] matches Call::CreateChannel { owner: o, .. } && o == owner));
        if t.owns_a_channel(owner) {
            let j = choose|j: int| 0 <= j < t.channels.len() && #[trigger] t.channels[j].owner == owner;
            if j < t0.channels.len() {
                assert(t0.channels[j].owner == owner);
            }
            assert(false);
        }
    }
}

/// Content that no call disputes, resolves or views reads back unchanged
/// after any sequence of calls.
pub proof fn untouched_content_persists(s: PlatformState, calls: Seq<Call>, content_id: u64)
    requires
        s.has_content(content_id),
        forall|k: int| 0 <= k < calls.len() ==> !touches_content(#[trigger] calls[k], content_id),
    ensures
        run(s, calls).get_content(content_id) == s.get_content(content_id),
    decreases calls.len(),
{
    if calls.len() > 0 {
        let d = calls.drop_last();
        assert forall|k: int| 0 <= k < d.len() implies !touches_content(#[trigger] d[k], content_id) by {
            assert(d[k] == calls[k]);
        }
        untouched_content_persists(s, d, content_id);
        let t0 = run(s, d);
        lemma_step_frame(t0, calls.last());
        assert(!touches_content(calls[calls.len() - 1], content_id));
        assert(run(s, calls).contents[content_id - 1] == t0.contents[content_id - 1]);
    }
}

/// A job whose status no call changes reads back unchanged after any
/// sequence of calls.
pub proof fn untouched_job_persists(s: PlatformState, calls: Seq<Call>, job_id: u64)
    requires
        s.has_job(job_id),
        forall|k: int| 0 <= k < calls.len() ==> !touches_job(#[trigger] calls[k], job_id),
    ensures
        run(s, calls).get_job(job_id) == s.get_job(job_id),
    decreases calls.len(),
{
    if calls.len() > 0 {
        let d = calls.drop_last();
        assert forall|k: int| 0 <= k < d.len() implies !touches_job(#[trigger] d[k], job_id) by {
            assert(d[k] == calls[k]);
        }
        untouched_job_persists(s, d, job_id);
        let t0 = run(s, d);
        lemma_step_frame(t0, calls.last());
        assert(!touches_job(calls[calls.len() - 1], job_id));
        assert(run(s, calls).jobs[job_id - 1] == t0.jobs[job_id - 1]);
    }
}

/// The numbers of channels, content records and jobs are the numbers of
/// successful calls that created them.
pub proof fn record_counts_are_successful_creations(calls: Seq<Call>)
    ensures
        ({
            let t = run(PlatformState::empty(), calls);
            let (channels, contents, jobs) = creations(PlatformState::empty(), calls);
            &&& t.channels.len() == channels
            &&& t.contents.len() == contents
            &&& t.jobs.len() == jobs
        }),
    decreases calls.len(),
{
    if calls.len() > 0 {
        record_counts_are_successful_creations(calls.drop_last());
        lemma_step_frame(run(PlatformState::empty(), calls.drop_last()), calls.last());
    }
}

/// A channel's total views are the number of views of its content recorded
/// since the platform began; a channel that does not exist has none.
pub proof fn channel_views_are_recorded_views(calls: Seq<Call>, channel_id: u64)
    ensures
        ({
            let t = run(PlatformState::empty(), calls);
            &&& t.has_channel(channel_id) ==> t.channel(channel_id).total_views == views_recorded(
                PlatformState::empty(),
                calls,
                channel_id,
            )
            &&& !t.has_channel(channel_id) ==> views_recorded(
                PlatformState::empty(),
                calls,
                channel_id,
            ) == 0
        }),
    decreases calls.len(),
{
    if calls.len() > 0 {
        let d = calls.drop_last();
        channel_views_are_recorded_views(d, channel_id);
        let t0 = run(PlatformState::empty(), d);
        let call = calls.last();
        lemma_step_frame(t0, call);
        let t = run(PlatformState::empty(), calls);
        if t0.has_channel(channel_id) {
            assert(t.channels[channel_id - 1].total_views == t0.channels[channel_id
                - 1].total_views + match call {
                Call::RecordView { content_id, .. } => if t0.succeeds(call) && t0.content(
                    content_id,
                ).channel_id == channel_id {
                    1int
                } else {
                    0int
                },
                _ => 0int,
            });
        } else if t.has_channel(channel_id) {
            assert(channel_id == t0.channels.len() + 1);
        }
    }
}

/// Copyright status moves only along its life cycle: a successful dispute
/// takes registered content to disputed, a successful resolution takes
/// disputed content to registered (upheld) or revoked; every other call
/// leaves the status as it was.
pub proof fn copyright_status_moves_along_life_cycle(s: PlatformState, call: Call, content_id: u64)
    requires
        s.has_content(content_id),
    ensures
        ({
            let before = s.content(content_id).copyright_status;
            let after = s.step(call).content(content_id).copyright_status;
            ||| after == before
            ||| call matches Call::DisputeContent { content_id: c, .. } && c == content_id
                && s.succeeds(call) && before == CopyrightStatus::Registered && after
                == CopyrightStatus::Disputed
            ||| call matches Call::ResolveDispute { content_id: c, uphold_original } && c
                == content_id && s.succeeds(call) && before == CopyrightStatus::Disputed && after
                == if uphold_original {
                CopyrightStatus::Registered
            } else {
                CopyrightStatus::Revoked
            }
        }),
{
    lemma_step_frame(s, call);
}

/// Revoked content stays revoked through every sequence of calls, and its
/// hash check fails every time.
pub proof fn revoked_stays_revoked(
    s: PlatformState,
    calls: Seq<Call>,
    content_id: u64,
    hash_to_check: Seq<u8>,
)
    requires
        s.has_content(content_id),
        s.content(content_id).copyright_status == CopyrightStatus::Revoked,
    ensures
        run(s, calls).content(content_id).copyright_status == CopyrightStatus::Revoked,
        run(s, calls).verify_content_hash(content_id, hash_to_check) == Ok::<bool, ContractError>(
            false,
        ),
    decreases calls.len(),
{
    if calls.len() > 0 {
        revoked_stays_revoked(s, calls.drop_last(), content_id, hash_to_check);
        let t0 = run(s, calls.drop_last());
        lemma_step_frame(t0, calls.last());
        copyright_status_moves_along_life_cycle(t0, calls.last(), content_id);
    }
}

/// The hash check follows a dispute: it fails while the dispute is open,
/// and after resolution it passes again exactly when the original claim is
/// upheld.
pub proof fn hash_check_follows_dispute(
    s: PlatformState,
    disputer: Address,
    content_id: u64,
    uphold_original: bool,
)
    requires
        s.has_content(content_id),
        s.content(content_id).copyright_status == CopyrightStatus::Registered,
    ensures
        ({
            let hash = s.content(content_id).content_hash;
            let t = s.dispute_content(disputer, content_id).0;
            let u = t.resolve_dispute(content_id, uphold_original).0;
            &&& s.verify_content_hash(content_id, hash) == Ok::<bool, ContractError>(true)
            &&& t.verify_content_hash(content_id, hash) == Ok::<bool, ContractError>(false)
            &&& u.verify_content_hash(content_id, hash) == Ok::<bool, ContractError>(uphold_original)
        }),
{
}

} // verus!
