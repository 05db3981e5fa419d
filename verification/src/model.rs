use vstd::prelude::*;

use crate::types::{
    Address, ChannelStatus, ChannelView, ContentView, ContractError, CopyrightStatus, JobStatus,
    JobType, JobView, LicenseType, RoyaltyTransfer, ViewerStats,
};

verus! {

/// The platform's persistent state as a mathematical value.
///
/// Channel, content and job identifiers are handed out in sequence from 1,
/// so the record with identifier `id` sits at position `id - 1` of its
/// sequence. `subscribers` runs parallel to `channels`; `viewers` (who has
/// ever viewed the content) and `ownership_claims` run parallel to `contents`.
#[verifier::ext_equal]
pub struct PlatformState {
    pub channels: Seq<ChannelView>,
    pub subscribers: Seq<Set<Address>>,
    pub contents: Seq<ContentView>,
    pub viewers: Seq<Set<Address>>,
    pub ownership_claims: Seq<Option<Address>>,
    pub jobs: Seq<JobView>,
}

/// The job status changes that `update_job_status` accepts.
pub open spec fn job_transition_allowed(from: JobStatus, to: JobStatus) -> bool {
    match (from, to) {
        (JobStatus::Pending, JobStatus::InProgress) => true,
        (JobStatus::Pending, JobStatus::Cancelled) => true,
        (JobStatus::InProgress, JobStatus::Completed) => true,
        (JobStatus::InProgress, JobStatus::Failed) => true,
        (JobStatus::InProgress, JobStatus::Cancelled) => true,
        _ => false,
    }
}

/// Number of content records in `contents` that belong to channel `channel_id`.
pub open spec fn contents_in(contents: Seq<ContentView>, channel_id: u64) -> nat
    decreases contents.len(),
{
    if contents.len() == 0 {
        0
    } else {
        contents_in(contents.drop_last(), channel_id) + if contents.last().channel_id
            == channel_id {
            1nat
        } else {
            0nat
        }
    }
}

/// Sum of the view counts of the content records in `contents` that belong
/// to channel `channel_id`.
pub open spec fn views_in(contents: Seq<ContentView>, channel_id: u64) -> nat
    decreases contents.len(),
{
    if contents.len() == 0 {
        0
    } else {
        views_in(contents.drop_last(), channel_id) + if contents.last().channel_id
            == channel_id {
            contents.last().view_count as nat
        } else {
            0nat
        }
    }
}

/// Appending a record adds it to its own channel's tallies only.
pub proof fn lemma_tallies_push(contents: Seq<ContentView>, c: ContentView, channel_id: u64)
    ensures
        contents_in(contents.push(c), channel_id) == contents_in(contents, channel_id) + if c.channel_id
            == channel_id {
            1nat
        } else {
            0nat
        },
        views_in(contents.push(c), channel_id) == views_in(contents, channel_id) + if c.channel_id
            == channel_id {
            c.view_count as nat
        } else {
            0nat
        },
{
    assert(contents.push(c).drop_last() =~= contents);
}

/// Replacing a record by one of the same channel keeps the record count of
/// every channel and moves that channel's view sum by the change in views.
pub proof fn lemma_tallies_update(
    contents: Seq<ContentView>,
    k: int,
    c: ContentView,
    channel_id: u64,
)
    requires
        0 <= k < contents.len(),
        c.channel_id == contents[k].channel_id,
    ensures
        contents_in(contents.update(k, c), channel_id) == contents_in(contents, channel_id),
        views_in(contents.update(k, c), channel_id) == views_in(contents, channel_id) + if c.channel_id
            == channel_id {
            c.view_count - contents[k].view_count
        } else {
            0
        },
    decreases contents.len(),
{
    let t = contents.update(k, c);
    if k == contents.len() - 1 {
        assert(t.drop_last() =~= contents.drop_last());
    } else {
        lemma_tallies_update(contents.drop_last(), k, c, channel_id);
        assert(t.drop_last() =~= contents.drop_last().update(k, c));
    }
}

/// The tallies of a prefix never exceed those of the whole sequence.
pub proof fn lemma_tallies_prefix(contents: Seq<ContentView>, k: int, channel_id: u64)
    requires
        0 <= k <= contents.len(),
    ensures
        contents_in(contents.take(k), channel_id) <= contents_in(contents, channel_id),
        views_in(contents.take(k), channel_id) <= views_in(contents, channel_id),
    decreases contents.len(),
{
    if k == contents.len() {
        assert(contents.take(k) =~= contents);
    } else {
        lemma_tallies_prefix(contents.drop_last(), k, channel_id);
        assert(contents.drop_last().take(k) =~= contents.take(k));
    }
}

/// Extending a prefix by one record adds that record to its channel's tallies.
pub proof fn lemma_tallies_prefix_step(contents: Seq<ContentView>, k: int, channel_id: u64)
    requires
        0 <= k < contents.len(),
    ensures
        contents_in(contents.take(k + 1), channel_id) == contents_in(contents.take(k), channel_id)
            + if contents[k].channel_id == channel_id {
            1nat
        } else {
            0nat
        },
        views_in(contents.take(k + 1), channel_id) == views_in(contents.take(k), channel_id)
            + if contents[k].channel_id == channel_id {
            contents[k].view_count as nat
        } else {
            0nat
        },
{
    assert(contents.take(k + 1) =~= contents.take(k).push(contents[k]));
    lemma_tallies_push(contents.take(k), contents[k], channel_id);
}

/// A channel that no record names has empty tallies.
pub proof fn lemma_tallies_absent(contents: Seq<ContentView>, channel_id: u64)
    requires
        forall|i: int| 0 <= i < contents.len() ==> (#[trigger] contents[i]).channel_id != channel_id,
    ensures
        contents_in(contents, channel_id) == 0,
        views_in(contents, channel_id) == 0,
    decreases contents.len(),
{
    if contents.len() > 0 {
        let d = contents.drop_last();
        assert forall|i: int| 0 <= i < d.len() implies (#[trigger] d[i]).channel_id != channel_id by {
            assert(d[i] == contents[i]);
        }
        lemma_tallies_absent(d, channel_id);
    }
}

impl PlatformState {
    pub open spec fn empty() -> PlatformState {
        PlatformState {
            channels: Seq::empty(),
            subscribers: Seq::empty(),
            contents: Seq::empty(),
            viewers: Seq::empty(),
            ownership_claims: Seq::empty(),
            jobs: Seq::empty(),
        }
    }

    // ---------------------------------------------------------------
    //  Lookups
    // ---------------------------------------------------------------

    pub open spec fn has_channel(self, id: u64) -> bool {
        1 <= id <= self.channels.len()
    }

    pub open spec fn channel(self, id: u64) -> ChannelView {
        self.channels[id - 1]
    }

    pub open spec fn has_content(self, id: u64) -> bool {
        1 <= id <= self.contents.len()
    }

    pub open spec fn content(self, id: u64) -> ContentView {
        self.contents[id - 1]
    }

    pub open spec fn has_job(self, id: u64) -> bool {
        1 <= id <= self.jobs.len()
    }

    pub open spec fn job(self, id: u64) -> JobView {
        self.jobs[id - 1]
    }

    /// `owner` owns some channel.
    pub open spec fn owns_a_channel(self, owner: Address) -> bool {
        exists|i: int| 0 <= i < self.channels.len() && #[trigger] self.channels[i].owner == owner
    }

    /// `user` is subscribed to the channel `channel_id`.
    pub open spec fn is_subscribed(self, user: Address, channel_id: u64) -> bool {
        self.has_channel(channel_id) && self.subscribers[channel_id - 1].contains(user)
    }

    // ---------------------------------------------------------------
    //  Invariant
    // ---------------------------------------------------------------

    /// What holds of every state the platform can reach.
    pub open spec fn inv(self) -> bool {
        &&& self.sizes_agree()
        &&& self.channels_well_formed()
        &&& self.subscribers_counted()
        &&& self.tallies_match()
        &&& self.contents_well_formed()
        &&& self.jobs_well_formed()
    }

    /// The per-channel and per-content sequences run parallel to their records.
    pub open spec fn sizes_agree(self) -> bool {
        &&& self.subscribers.len() == self.channels.len()
        &&& self.viewers.len() == self.contents.len()
        &&& self.ownership_claims.len() == self.contents.len()
    }

    /// Channel identifiers run from 1, and no owner has two channels.
    pub open spec fn channels_well_formed(self) -> bool {
        &&& forall|i: int| 0 <= i < self.channels.len() ==> #[trigger] self.channels[i].id == i + 1
        &&& forall|i: int, j: int|
            0 <= i < self.channels.len() && 0 <= j < self.channels.len() && i != j
                ==> #[trigger] self.channels[i].owner != #[trigger] self.channels[j].owner
    }

    /// A channel's subscriber count is the number of its subscribers.
    pub open spec fn subscribers_counted(self) -> bool {
        forall|i: int|
            0 <= i < self.channels.len() ==> {
                &&& (#[trigger] self.subscribers[i]).finite()
                &&& self.subscribers[i].len() == self.channels[i].subscriber_count
            }
    }

    /// A channel's content count and total views tally its content records.
    pub open spec fn tallies_match(self) -> bool {
        forall|i: int|
            0 <= i < self.channels.len() ==> {
                &&& (#[trigger] self.channels[i]).content_count == contents_in(
                    self.contents,
                    (i + 1) as u64,
                )
                &&& self.channels[i].total_views == views_in(self.contents, (i + 1) as u64)
            }
    }

    /// Content identifiers run from 1; content belongs to an existing
    /// channel and its owner; royalties are at most 100%; its distinct
    /// viewers never outnumber its views; a claim is on file exactly while
    /// disputed; no content is ever in the `Resolved` status.
    pub open spec fn contents_well_formed(self) -> bool {
        forall|i: int|
            0 <= i < self.contents.len() ==> {
                let c = #[trigger] self.contents[i];
                &&& c.id == i + 1
                &&& self.has_channel(c.channel_id)
                &&& c.owner == self.channel(c.channel_id).owner
                &&& c.royalty_bps <= 10_000
                &&& self.viewers[i].finite()
                &&& self.viewers[i].len() <= c.view_count
                &&& (self.ownership_claims[i] is Some <==> c.copyright_status
                    == CopyrightStatus::Disputed)
                &&& c.copyright_status != CopyrightStatus::Resolved
            }
    }

    /// Job identifiers run from 1; a job belongs to an existing channel,
    /// was created by its owner, and is scheduled before its deadline.
    pub open spec fn jobs_well_formed(self) -> bool {
        forall|i: int|
            0 <= i < self.jobs.len() ==> {
                let j = #[trigger] self.jobs[i];
                &&& j.id == i + 1
                &&& self.has_channel(j.channel_id)
                &&& j.creator == self.channel(j.channel_id).owner
                &&& j.scheduled_at < j.deadline_at
            }
    }

    // ---------------------------------------------------------------
    //  Channels
    // ---------------------------------------------------------------

    /// The arithmetic of `create_channel` stays within `u64`.
    pub open spec fn create_channel_defined(self, owner: Address) -> bool {
        !self.owns_a_channel(owner) ==> self.channels.len() < u64::MAX
    }

    pub open spec fn create_channel(
        self,
        owner: Address,
        name: Seq<u8>,
        description: Seq<u8>,
        category: Seq<u8>,
        royalty_address: Address,
        now: u64,
    ) -> (PlatformState, Result<u64, ContractError>) {
        if self.owns_a_channel(owner) {
            (self, Err(ContractError::AlreadyExists))
        } else {
            let id = (self.channels.len() + 1) as u64;
            let channel = ChannelView {
                id,
                owner,
                name,
                description,
                category,
                subscriber_count: 0,
                total_views: 0,
                content_count: 0,
                created_at: now,
                status: ChannelStatus::Active,
                royalty_address,
            };
            (
                PlatformState {
                    channels: self.channels.push(channel),
                    subscribers: self.subscribers.push(Set::empty()),
                    ..self
                },
                Ok(id),
            )
        }
    }

    pub open spec fn update_channel(
        self,
        owner: Address,
        channel_id: u64,
        name: Seq<u8>,
        description: Seq<u8>,
        category: Seq<u8>,
    ) -> (PlatformState, Result<(), ContractError>) {
        if !self.has_channel(channel_id) {
            (self, Err(ContractError::NotFound))
        } else if self.channel(channel_id).owner != owner {
            (self, Err(ContractError::Unauthorized))
        } else if self.channel(channel_id).status == ChannelStatus::Suspended {
            (self, Err(ContractError::ChannelSuspended))
        } else {
            let c = self.channel(channel_id);
            let updated = ChannelView { name, description, category, ..c };
            (
                PlatformState { channels: self.channels.update(channel_id - 1, updated), ..self },
                Ok(()),
            )
        }
    }

    pub open spec fn get_channel(self, channel_id: u64) -> Result<ChannelView, ContractError> {
        if self.has_channel(channel_id) {
            Ok(self.channel(channel_id))
        } else {
            Err(ContractError::NotFound)
        }
    }

    pub open spec fn get_channel_by_owner(self, owner: Address) -> Result<u64, ContractError> {
        if self.owns_a_channel(owner) {
            let i = choose|i: int| 0 <= i < self.channels.len() && #[trigger] self.channels[i].owner == owner;
            Ok(self.channels[i].id)
        } else {
            Err(ContractError::NotFound)
        }
    }

    /// The arithmetic of `subscribe` stays within `u64`.
    pub open spec fn subscribe_defined(self, user: Address, channel_id: u64) -> bool {
        (!self.is_subscribed(user, channel_id) && self.has_channel(channel_id))
            ==> self.channel(channel_id).subscriber_count < u64::MAX
    }

    pub open spec fn subscribe(self, user: Address, channel_id: u64) -> (
        PlatformState,
        Result<u64, ContractError>,
    ) {
        if self.is_subscribed(user, channel_id) {
            (self, Err(ContractError::AlreadyExists))
        } else if !self.has_channel(channel_id) {
            (self, Err(ContractError::NotFound))
        } else {
            let c = self.channel(channel_id);
            let count = (c.subscriber_count + 1) as u64;
            (
                PlatformState {
                    channels: self.channels.update(
                        channel_id - 1,
                        ChannelView { subscriber_count: count, ..c },
                    ),
                    subscribers: self.subscribers.update(
                        channel_id - 1,
                        self.subscribers[channel_id - 1].insert(user),
                    ),
                    ..self
                },
                Ok(count),
            )
        }
    }

    pub open spec fn unsubscribe(self, user: Address, channel_id: u64) -> (
        PlatformState,
        Result<u64, ContractError>,
    ) {
        if !self.is_subscribed(user, channel_id) {
            (self, Err(ContractError::NotFound))
        } else {
            let c = self.channel(channel_id);
            let count = if c.subscriber_count > 0 {
                (c.subscriber_count - 1) as u64
            } else {
                0
            };
            (
                PlatformState {
                    channels: self.channels.update(
                        channel_id - 1,
                        ChannelView { subscriber_count: count, ..c },
                    ),
                    subscribers: self.subscribers.update(
                        channel_id - 1,
                        self.subscribers[channel_id - 1].remove(user),
                    ),
                    ..self
                },
                Ok(count),
            )
        }
    }

    // ---------------------------------------------------------------
    //  Content and copyright
    // ---------------------------------------------------------------

    /// The arithmetic of `register_content` stays within `u64`.
    pub open spec fn register_content_defined(
        self,
        owner: Address,
        channel_id: u64,
        royalty_bps: u32,
    ) -> bool {
        (royalty_bps <= 10_000 && self.has_channel(channel_id) && self.channel(channel_id).owner
            == owner) ==> {
            &&& self.contents.len() < u64::MAX
            &&& self.channel(channel_id).content_count < u64::MAX
        }
    }

    pub open spec fn register_content(
        self,
        owner: Address,
        channel_id: u64,
        title: Seq<u8>,
        description: Seq<u8>,
        content_hash: Seq<u8>,
        content_type: Seq<u8>,
        license: LicenseType,
        royalty_bps: u32,
        now: u64,
    ) -> (PlatformState, Result<u64, ContractError>) {
        if royalty_bps > 10_000 {
            (self, Err(ContractError::InvalidInput))
        } else if !self.has_channel(channel_id) {
            (self, Err(ContractError::NotFound))
        } else if self.channel(channel_id).owner != owner {
            (self, Err(ContractError::Unauthorized))
        } else {
            let id = (self.contents.len() + 1) as u64;
            let content = ContentView {
                id,
                channel_id,
                owner,
                title,
                description,
                content_hash,
                content_type,
                license,
                royalty_bps,
                copyright_status: CopyrightStatus::Registered,
                registered_at: now,
                view_count: 0,
            };
            let c = self.channel(channel_id);
            (
                PlatformState {
                    channels: self.channels.update(
                        channel_id - 1,
                        ChannelView { content_count: (c.content_count + 1) as u64, ..c },
                    ),
                    contents: self.contents.push(content),
                    viewers: self.viewers.push(Set::empty()),
                    ownership_claims: self.ownership_claims.push(None),
                    ..self
                },
                Ok(id),
            )
        }
    }

    pub open spec fn get_content(self, content_id: u64) -> Result<ContentView, ContractError> {
        if self.has_content(content_id) {
            Ok(self.content(content_id))
        } else {
            Err(ContractError::NotFound)
        }
    }

    pub open spec fn verify_content_hash(self, content_id: u64, hash_to_check: Seq<u8>) -> Result<
        bool,
        ContractError,
    > {
        if self.has_content(content_id) {
            let c = self.content(content_id);
            Ok(c.content_hash == hash_to_check && c.copyright_status
                == CopyrightStatus::Registered)
        } else {
            Err(ContractError::NotFound)
        }
    }

    pub open spec fn dispute_content(self, disputer: Address, content_id: u64) -> (
        PlatformState,
        Result<(), ContractError>,
    ) {
        if !self.has_content(content_id) {
            (self, Err(ContractError::NotFound))
        } else if self.content(content_id).copyright_status != CopyrightStatus::Registered {
            (self, Err(ContractError::InvalidInput))
        } else {
            let c = self.content(content_id);
            (
                PlatformState {
                    contents: self.contents.update(
                        content_id - 1,
                        ContentView { copyright_status: CopyrightStatus::Disputed, ..c },
                    ),
                    ownership_claims: self.ownership_claims.update(content_id - 1, Some(disputer)),
                    ..self
                },
                Ok(()),
            )
        }
    }

    pub open spec fn resolve_dispute(self, content_id: u64, uphold_original: bool) -> (
        PlatformState,
        Result<(), ContractError>,
    ) {
        if !self.has_content(content_id) {
            (self, Err(ContractError::NotFound))
        } else if self.content(content_id).copyright_status != CopyrightStatus::Disputed {
            (self, Err(ContractError::InvalidInput))
        } else {
            let c = self.content(content_id);
            let status = if uphold_original {
                CopyrightStatus::Registered
            } else {
                CopyrightStatus::Revoked
            };
            (
                PlatformState {
                    contents: self.contents.update(
                        content_id - 1,
                        ContentView { copyright_status: status, ..c },
                    ),
                    ownership_claims: self.ownership_claims.update(content_id - 1, None),
                    ..self
                },
                Ok(()),
            )
        }
    }

    /// Royalties may be paid on the content: it exists and is neither
    /// disputed nor revoked.
    pub open spec fn royalty_payable(self, content_id: u64) -> bool {
        &&& self.has_content(content_id)
        &&& self.content(content_id).copyright_status != CopyrightStatus::Revoked
        &&& self.content(content_id).copyright_status != CopyrightStatus::Disputed
    }

    pub open spec fn pay_royalty(
        self,
        payer: Address,
        content_id: u64,
        xlm_token: Address,
        amount_stroops: i128,
    ) -> Result<RoyaltyTransfer, ContractError> {
        if !self.has_content(content_id) {
            Err(ContractError::NotFound)
        } else if !self.royalty_payable(content_id) {
            Err(ContractError::ContentDisputed)
        } else if !self.has_channel(self.content(content_id).channel_id) {
            Err(ContractError::NotFound)
        } else {
            let c = self.content(content_id);
            Ok(
                RoyaltyTransfer {
                    token: xlm_token,
                    from: payer,
                    to: self.channel(c.channel_id).royalty_address,
                    amount: amount_stroops,
                },
            )
        }
    }

    // ---------------------------------------------------------------
    //  Viewer statistics
    // ---------------------------------------------------------------

    /// `viewer` has viewed content `content_id` before.
    pub open spec fn has_viewed(self, viewer: Address, content_id: u64) -> bool {
        self.has_content(content_id) && self.viewers[content_id - 1].contains(viewer)
    }

    /// The arithmetic of `record_view` stays within `u64`.
    pub open spec fn record_view_defined(self, content_id: u64) -> bool {
        (self.has_content(content_id) && self.content(content_id).copyright_status
            != CopyrightStatus::Revoked) ==> {
            let c = self.content(content_id);
            &&& c.view_count < u64::MAX
            &&& self.has_channel(c.channel_id) ==> self.channel(c.channel_id).total_views
                < u64::MAX
        }
    }

    /// `viewer` views content `content_id`: its views and its channel's
    /// views grow by one, and the viewer joins the content's viewers (so
    /// its unique viewers grow by one exactly on a first view).
    pub open spec fn record_view(self, viewer: Address, content_id: u64) -> (
        PlatformState,
        Result<u64, ContractError>,
    ) {
        if !self.has_content(content_id) {
            (self, Err(ContractError::NotFound))
        } else if self.content(content_id).copyright_status == CopyrightStatus::Revoked {
            (self, Err(ContractError::ContentDisputed))
        } else if !self.has_channel(self.content(content_id).channel_id) {
            (self, Err(ContractError::NotFound))
        } else {
            let c = self.content(content_id);
            let ch = self.channel(c.channel_id);
            let total = (c.view_count + 1) as u64;
            (
                PlatformState {
                    contents: self.contents.update(
                        content_id - 1,
                        ContentView { view_count: total, ..c },
                    ),
                    viewers: self.viewers.update(
                        content_id - 1,
                        self.viewers[content_id - 1].insert(viewer),
                    ),
                    channels: self.channels.update(
                        c.channel_id - 1,
                        ChannelView { total_views: (ch.total_views + 1) as u64, ..ch },
                    ),
                    ..self
                },
                Ok(total),
            )
        }
    }

    pub open spec fn get_viewer_stats(self, content_id: u64, now: u64) -> Result<
        ViewerStats,
        ContractError,
    > {
        if self.has_content(content_id) {
            Ok(
                ViewerStats {
                    content_id,
                    total_views: self.content(content_id).view_count,
                    unique_viewers: self.viewers[content_id - 1].len() as u64,
                    last_viewed_at: now,
                },
            )
        } else {
            Err(ContractError::NotFound)
        }
    }

    pub open spec fn get_channel_views(self, channel_id: u64) -> Result<u64, ContractError> {
        if self.has_channel(channel_id) {
            Ok(self.channel(channel_id).total_views)
        } else {
            Err(ContractError::NotFound)
        }
    }

    pub open spec fn get_subscriber_count(self, channel_id: u64) -> Result<u64, ContractError> {
        if self.has_channel(channel_id) {
            Ok(self.channel(channel_id).subscriber_count)
        } else {
            Err(ContractError::NotFound)
        }
    }

    // ---------------------------------------------------------------
    //  Jobs
    // ---------------------------------------------------------------

    /// The arithmetic of `create_job` stays within `u64`.
    pub open spec fn create_job_defined(
        self,
        creator: Address,
        channel_id: u64,
        scheduled_at: u64,
        deadline_at: u64,
    ) -> bool {
        (self.has_channel(channel_id) && self.channel(channel_id).owner == creator && scheduled_at
            < deadline_at) ==> self.jobs.len() < u64::MAX
    }

    pub open spec fn create_job(
        self,
        creator: Address,
        channel_id: u64,
        title: Seq<u8>,
        description: Seq<u8>,
        job_type: JobType,
        scheduled_at: u64,
        deadline_at: u64,
        reward_xlm: i128,
        now: u64,
    ) -> (PlatformState, Result<u64, ContractError>) {
        if !self.has_channel(channel_id) {
            (self, Err(ContractError::NotFound))
        } else if self.channel(channel_id).owner != creator {
            (self, Err(ContractError::Unauthorized))
        } else if scheduled_at >= deadline_at {
            (self, Err(ContractError::InvalidInput))
        } else {
            let id = (self.jobs.len() + 1) as u64;
            let job = JobView {
                id,
                channel_id,
                creator,
                title,
                description,
                job_type,
                status: JobStatus::Pending,
                scheduled_at,
                deadline_at,
                created_at: now,
                updated_at: now,
                reward_xlm,
            };
            (PlatformState { jobs: self.jobs.push(job), ..self }, Ok(id))
        }
    }

    pub open spec fn update_job_status(
        self,
        caller: Address,
        job_id: u64,
        new_status: JobStatus,
        now: u64,
    ) -> (PlatformState, Result<(), ContractError>) {
        if !self.has_job(job_id) {
            (self, Err(ContractError::NotFound))
        } else if self.job(job_id).creator != caller {
            (self, Err(ContractError::Unauthorized))
        } else if !job_transition_allowed(self.job(job_id).status, new_status) {
            (self, Err(ContractError::InvalidInput))
        } else {
            let j = self.job(job_id);
            (
                PlatformState {
                    jobs: self.jobs.update(
                        job_id - 1,
                        JobView { status: new_status, updated_at: now, ..j },
                    ),
                    ..self
                },
                Ok(()),
            )
        }
    }

    pub open spec fn get_job(self, job_id: u64) -> Result<JobView, ContractError> {
        if self.has_job(job_id) {
            Ok(self.job(job_id))
        } else {
            Err(ContractError::NotFound)
        }
    }

    pub open spec fn cancel_job(self, caller: Address, job_id: u64, now: u64) -> (
        PlatformState,
        Result<(), ContractError>,
    ) {
        if !self.has_job(job_id) {
            (self, Err(ContractError::NotFound))
        } else if self.job(job_id).creator != caller {
            (self, Err(ContractError::Unauthorized))
        } else if self.job(job_id).status != JobStatus::Pending && self.job(job_id).status
            != JobStatus::InProgress {
            (self, Err(ContractError::InvalidInput))
        } else {
            let j = self.job(job_id);
            (
                PlatformState {
                    jobs: self.jobs.update(
                        job_id - 1,
                        JobView { status: JobStatus::Cancelled, updated_at: now, ..j },
                    ),
                    ..self
                },
                Ok(()),
            )
        }
    }
}

/// `create_channel` keeps the invariant.
pub proof fn lemma_create_channel_keeps_inv(
    s: PlatformState,
    owner: Address,
    name: Seq<u8>,
    description: Seq<u8>,
    category: Seq<u8>,
    royalty_address: Address,
    now: u64,
)
    requires
        s.inv(),
        s.create_channel_defined(owner),
    ensures
        s.create_channel(owner, name, description, category, royalty_address, now).0.inv(),
{
    let t = s.create_channel(owner, name, description, category, royalty_address, now).0;
    if !s.owns_a_channel(owner) {
        let n = s.channels.len();
        assert forall|i: int| 0 <= i < s.contents.len() implies (#[trigger] s.contents[i]).channel_id
            != (n + 1) as u64 by {
            assert(s.has_channel(s.contents[i].channel_id));
        }
        lemma_tallies_absent(s.contents, (n + 1) as u64);
        assert(t.subscribers[n as int] =~= Set::<Address>::empty());
        assert forall|i: int| 0 <= i < t.contents.len() implies {
            let c = #[trigger] t.contents[i];
            c.owner == t.channel(c.channel_id).owner
        } by {
            assert(t.contents[i] == s.contents[i]);
            assert(s.has_channel(s.contents[i].channel_id));
            assert(t.channel(s.contents[i].channel_id) == s.channel(s.contents[i].channel_id));
        }
        assert forall|i: int| 0 <= i < t.jobs.len() implies {
            let j = #[trigger] t.jobs[i];
            j.creator == t.channel(j.channel_id).owner
        } by {
            assert(s.has_channel(s.jobs[i].channel_id));
            assert(t.channel(s.jobs[i].channel_id) == s.channel(s.jobs[i].channel_id));
        }
    }
}

/// `register_content` keeps the invariant.
pub proof fn lemma_register_content_keeps_inv(
    s: PlatformState,
    owner: Address,
    channel_id: u64,
    title: Seq<u8>,
    description: Seq<u8>,
    content_hash: Seq<u8>,
    content_type: Seq<u8>,
    license: LicenseType,
    royalty_bps: u32,
    now: u64,
)
    requires
        s.inv(),
        s.register_content_defined(owner, channel_id, royalty_bps),
    ensures
        s.register_content(
            owner,
            channel_id,
            title,
            description,
            content_hash,
            content_type,
            license,
            royalty_bps,
            now,
        ).0.inv(),
{
    let (t, r) = s.register_content(
        owner,
        channel_id,
        title,
        description,
        content_hash,
        content_type,
        license,
        royalty_bps,
        now,
    );
    if r is Ok {
        let c = t.contents.last();
        assert(t.contents == s.contents.push(c));
        assert forall|i: int| 0 <= i < t.channels.len() implies {
            &&& (#[trigger] t.channels[i]).content_count == contents_in(t.contents, (i + 1) as u64)
            &&& t.channels[i].total_views == views_in(t.contents, (i + 1) as u64)
        } by {
            lemma_tallies_push(s.contents, c, (i + 1) as u64);
            assert(s.channels[i].id == i + 1);
        }
        assert forall|i: int| 0 <= i < t.contents.len() implies {
            let c = #[trigger] t.contents[i];
            &&& c.id == i + 1
            &&& t.has_channel(c.channel_id)
            &&& c.owner == t.channel(c.channel_id).owner
            &&& c.royalty_bps <= 10_000
            &&& t.viewers[i].finite()
            &&& t.viewers[i].len() <= c.view_count
            &&& (t.ownership_claims[i] is Some <==> c.copyright_status == CopyrightStatus::Disputed)
            &&& c.copyright_status != CopyrightStatus::Resolved
        } by {
            if i == s.contents.len() {
                assert(t.viewers[i] == Set::<Address>::empty());
            }
            if i < s.contents.len() {
                assert(t.contents[i] == s.contents[i]);
                assert(s.has_channel(s.contents[i].channel_id));
                assert(t.channel(s.contents[i].channel_id).owner == s.channel(
                    s.contents[i].channel_id,
                ).owner);
            }
        }
        assert forall|i: int| 0 <= i < t.jobs.len() implies {
            let j = #[trigger] t.jobs[i];
            j.creator == t.channel(j.channel_id).owner
        } by {
            assert(s.has_channel(s.jobs[i].channel_id));
            assert(t.channel(s.jobs[i].channel_id).owner == s.channel(s.jobs[i].channel_id).owner);
        }
    }
}

/// Replacing content `k` by a record of the same channel, views and
/// owner keeps the tallies of every channel.
proof fn lemma_content_status_change_keeps_tallies(s: PlatformState, t: PlatformState, k: int)
    requires
        s.inv(),
        0 <= k < s.contents.len(),
        t.channels == s.channels,
        t.contents == s.contents.update(k, t.contents[k]),
        t.contents[k].channel_id == s.contents[k].channel_id,
        t.contents[k].view_count == s.contents[k].view_count,
    ensures
        forall|i: int|
            0 <= i < t.channels.len() ==> {
                &&& (#[trigger] t.channels[i]).content_count == contents_in(
                    t.contents,
                    (i + 1) as u64,
                )
                &&& t.channels[i].total_views == views_in(t.contents, (i + 1) as u64)
            },
{
    assert forall|i: int| 0 <= i < t.channels.len() implies {
        &&& (#[trigger] t.channels[i]).content_count == contents_in(t.contents, (i + 1) as u64)
        &&& t.channels[i].total_views == views_in(t.contents, (i + 1) as u64)
    } by {
        lemma_tallies_update(s.contents, k, t.contents[k], (i + 1) as u64);
        assert(s.channels[i] == t.channels[i]);
    }
}

/// `dispute_content` keeps the invariant.
pub proof fn lemma_dispute_content_keeps_inv(s: PlatformState, disputer: Address, content_id: u64)
    requires
        s.inv(),
    ensures
        s.dispute_content(disputer, content_id).0.inv(),
{
    let (t, r) = s.dispute_content(disputer, content_id);
    if r is Ok {
        lemma_content_status_change_keeps_tallies(s, t, content_id - 1);
    }
}

/// `resolve_dispute` keeps the invariant.
pub proof fn lemma_resolve_dispute_keeps_inv(s: PlatformState, content_id: u64, uphold_original: bool)
    requires
        s.inv(),
    ensures
        s.resolve_dispute(content_id, uphold_original).0.inv(),
{
    let (t, r) = s.resolve_dispute(content_id, uphold_original);
    if r is Ok {
        lemma_content_status_change_keeps_tallies(s, t, content_id - 1);
    }
}

/// `record_view` keeps the invariant.
pub proof fn lemma_record_view_keeps_inv(s: PlatformState, viewer: Address, content_id: u64)
    requires
        s.inv(),
        s.record_view_defined(content_id),
    ensures
        s.record_view(viewer, content_id).0.inv(),
{
    let (t, r) = s.record_view(viewer, content_id);
    if r is Ok {
        let k = content_id - 1;
        let seen = s.viewers[k];
        assert(seen.finite());
        if seen.contains(viewer) {
            assert(seen.insert(viewer) =~= seen);
        }
        assert(t.viewers[k].len() <= t.contents[k].view_count);
        let ch = s.content(content_id).channel_id;
        assert(t.contents == s.contents.update(k, t.contents[k]));
        assert forall|i: int| 0 <= i < t.channels.len() implies {
            &&& (#[trigger] t.channels[i]).content_count == contents_in(t.contents, (i + 1) as u64)
            &&& t.channels[i].total_views == views_in(t.contents, (i + 1) as u64)
        } by {
            lemma_tallies_update(s.contents, k, t.contents[k], (i + 1) as u64);
            assert(s.channels[i].id == i + 1);
        }
        assert forall|i: int| 0 <= i < t.contents.len() implies {
            let c = #[trigger] t.contents[i];
            c.owner == t.channel(c.channel_id).owner
        } by {
            assert(s.has_channel(s.contents[i].channel_id));
            assert(t.channel(s.contents[i].channel_id).owner == s.channel(
                s.contents[i].channel_id,
            ).owner);
        }
        assert forall|i: int| 0 <= i < t.jobs.len() implies {
            let j = #[trigger] t.jobs[i];
            j.creator == t.channel(j.channel_id).owner
        } by {
            assert(s.has_channel(s.jobs[i].channel_id));
            assert(t.channel(s.jobs[i].channel_id).owner == s.channel(s.jobs[i].channel_id).owner);
        }
    }
}

/// Changing channel fields other than owner and identifier keeps the
/// ownership facts that content and jobs depend on.
proof fn lemma_channel_edit_keeps_ownership(s: PlatformState, t: PlatformState)
    requires
        s.inv(),
        t.channels.len() == s.channels.len(),
        t.contents == s.contents,
        t.jobs == s.jobs,
        forall|i: int|
            0 <= i < s.channels.len() ==> (#[trigger] t.channels[i]).owner == s.channels[i].owner
                && t.channels[i].id == s.channels[i].id,
    ensures
        forall|i: int|
            0 <= i < t.contents.len() ==> {
                let c = #[trigger] t.contents[i];
                c.owner == t.channel(c.channel_id).owner
            },
        forall|i: int|
            0 <= i < t.jobs.len() ==> {
                let j = #[trigger] t.jobs[i];
                j.creator == t.channel(j.channel_id).owner
            },
{
    assert forall|i: int| 0 <= i < t.contents.len() implies {
        let c = #[trigger] t.contents[i];
        c.owner == t.channel(c.channel_id).owner
    } by {
        assert(s.has_channel(s.contents[i].channel_id));
        assert(t.channels[s.contents[i].channel_id - 1].owner == s.channels[s.contents[i].channel_id
            - 1].owner);
    }
    assert forall|i: int| 0 <= i < t.jobs.len() implies {
        let j = #[trigger] t.jobs[i];
        j.creator == t.channel(j.channel_id).owner
    } by {
        assert(s.has_channel(s.jobs[i].channel_id));
        assert(t.channels[s.jobs[i].channel_id - 1].owner == s.channels[s.jobs[i].channel_id
            - 1].owner);
    }
}

/// `update_channel` keeps the invariant.
pub proof fn lemma_update_channel_keeps_inv(
    s: PlatformState,
    owner: Address,
    channel_id: u64,
    name: Seq<u8>,
    description: Seq<u8>,
    category: Seq<u8>,
)
    requires
        s.inv(),
    ensures
        s.update_channel(owner, channel_id, name, description, category).0.inv(),
{
    let (t, r) = s.update_channel(owner, channel_id, name, description, category);
    if r is Ok {
        lemma_channel_edit_keeps_ownership(s, t);
    }
}

/// `subscribe` keeps the invariant.
pub proof fn lemma_subscribe_keeps_inv(s: PlatformState, user: Address, channel_id: u64)
    requires
        s.inv(),
        s.subscribe_defined(user, channel_id),
    ensures
        s.subscribe(user, channel_id).0.inv(),
{
    let (t, r) = s.subscribe(user, channel_id);
    if r is Ok {
        lemma_channel_edit_keeps_ownership(s, t);
    }
}

/// `unsubscribe` keeps the invariant.
pub proof fn lemma_unsubscribe_keeps_inv(s: PlatformState, user: Address, channel_id: u64)
    requires
        s.inv(),
    ensures
        s.unsubscribe(user, channel_id).0.inv(),
{
    let (t, r) = s.unsubscribe(user, channel_id);
    if r is Ok {
        let k = channel_id - 1;
        assert(s.subscribers[k].remove(user).len() == s.subscribers[k].len() - 1);
        lemma_channel_edit_keeps_ownership(s, t);
    }
}

/// `create_job` keeps the invariant.
pub proof fn lemma_create_job_keeps_inv(
    s: PlatformState,
    creator: Address,
    channel_id: u64,
    title: Seq<u8>,
    description: Seq<u8>,
    job_type: JobType,
    scheduled_at: u64,
    deadline_at: u64,
    reward_xlm: i128,
    now: u64,
)
    requires
        s.inv(),
        s.create_job_defined(creator, channel_id, scheduled_at, deadline_at),
    ensures
        s.create_job(
            creator,
            channel_id,
            title,
            description,
            job_type,
            scheduled_at,
            deadline_at,
            reward_xlm,
            now,
        ).0.inv(),
{
}

/// `update_job_status` keeps the invariant.
pub proof fn lemma_update_job_status_keeps_inv(
    s: PlatformState,
    caller: Address,
    job_id: u64,
    new_status: JobStatus,
    now: u64,
)
    requires
        s.inv(),
    ensures
        s.update_job_status(caller, job_id, new_status, now).0.inv(),
{
}

/// `cancel_job` keeps the invariant.
pub proof fn lemma_cancel_job_keeps_inv(s: PlatformState, caller: Address, job_id: u64, now: u64)
    requires
        s.inv(),
    ensures
        s.cancel_job(caller, job_id, now).0.inv(),
{
}

} // verus!
