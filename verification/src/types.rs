use vstd::prelude::*;

verus! {

/// Which kind of ledger entity an address names.
#[derive(Clone, Copy, Debug, PartialEq, Eq, Structural)]
pub enum AddressKind {
    Account,
    Contract,
}

/// A ledger address: its kind and its 256-bit key, split into two halves.
/// Two addresses are equal exactly when kind and key are equal.
#[derive(Clone, Copy, Debug, PartialEq, Eq, Structural)]
pub struct Address {
    pub kind: AddressKind,
    pub key_high: u128,
    pub key_low: u128,
}

/// Free-form text (names, descriptions, hashes) as raw bytes.
pub type Text = Vec<u8>;

#[derive(Clone, Copy, Debug, PartialEq, Eq, Structural)]
pub enum ChannelStatus {
    Active,
    Suspended,
    Closed,
}

#[derive(Clone, Copy, Debug, PartialEq, Eq, Structural)]
pub enum LicenseType {
    AllRightsReserved,
    CreativeCommons,
    OpenSource,
    CommercialAllowed,
}

#[derive(Clone, Copy, Debug, PartialEq, Eq, Structural)]
pub enum CopyrightStatus {
    Registered,
    Disputed,
    Resolved,
    Revoked,
}

#[derive(Clone, Copy, Debug, PartialEq, Eq, Structural)]
pub enum JobStatus {
    Pending,
    InProgress,
    Completed,
    Cancelled,
    Failed,
}

#[derive(Clone, Copy, Debug, PartialEq, Eq, Structural)]
pub enum JobType {
    LiveStream,
    VideoUpload,
    AudioUpload,
    MarketingCampaign,
    Collaboration,
    Maintenance,
    Other,
}

#[derive(Clone, Copy, Debug, PartialEq, Eq, Structural)]
pub enum ContractError {
    NotFound,
    Unauthorized,
    AlreadyExists,
    InvalidInput,
    InsufficientFunds,
    ContentDisputed,
    ChannelSuspended,
    JobNotPending,
}

#[derive(Clone, Debug)]
pub struct Channel {
    pub id: u64,
    pub owner: Address,
    pub name: Text,
    pub description: Text,
    pub category: Text,
    pub subscriber_count: u64,
    pub total_views: u64,
    pub content_count: u64,
    pub created_at: u64,
    pub status: ChannelStatus,
    pub royalty_address: Address,
}

/// The mathematical value of a [`Channel`]: its text fields as byte sequences.
#[verifier::ext_equal]
pub struct ChannelView {
    pub id: u64,
    pub owner: Address,
    pub name: Seq<u8>,
    pub description: Seq<u8>,
    pub category: Seq<u8>,
    pub subscriber_count: u64,
    pub total_views: u64,
    pub content_count: u64,
    pub created_at: u64,
    pub status: ChannelStatus,
    pub royalty_address: Address,
}

impl View for Channel {
    type V = ChannelView;

    open spec fn view(&self) -> ChannelView {
        ChannelView {
            id: self.id,
            owner: self.owner,
            name: self.name@,
            description: self.description@,
            category: self.category@,
            subscriber_count: self.subscriber_count,
            total_views: self.total_views,
            content_count: self.content_count,
            created_at: self.created_at,
            status: self.status,
            royalty_address: self.royalty_address,
        }
    }
}

#[derive(Clone, Debug)]
pub struct Content {
    pub id: u64,
    pub channel_id: u64,
    pub owner: Address,
    pub title: Text,
    pub description: Text,
    pub content_hash: Text,
    pub content_type: Text,
    pub license: LicenseType,
    pub royalty_bps: u32,
    pub copyright_status: CopyrightStatus,
    pub registered_at: u64,
    pub view_count: u64,
}

/// The mathematical value of a [`Content`].
#[verifier::ext_equal]
pub struct ContentView {
    pub id: u64,
    pub channel_id: u64,
    pub owner: Address,
    pub title: Seq<u8>,
    pub description: Seq<u8>,
    pub content_hash: Seq<u8>,
    pub content_type: Seq<u8>,
    pub license: LicenseType,
    pub royalty_bps: u32,
    pub copyright_status: CopyrightStatus,
    pub registered_at: u64,
    pub view_count: u64,
}

impl View for Content {
    type V = ContentView;

    open spec fn view(&self) -> ContentView {
        ContentView {
            id: self.id,
            channel_id: self.channel_id,
            owner: self.owner,
            title: self.title@,
            description: self.description@,
            content_hash: self.content_hash@,
            content_type: self.content_type@,
            license: self.license,
            royalty_bps: self.royalty_bps,
            copyright_status: self.copyright_status,
            registered_at: self.registered_at,
            view_count: self.view_count,
        }
    }
}

#[derive(Clone, Debug)]
pub struct Job {
    pub id: u64,
    pub channel_id: u64,
    pub creator: Address,
    pub title: Text,
    pub description: Text,
    pub job_type: JobType,
    pub status: JobStatus,
    pub scheduled_at: u64,
    pub deadline_at: u64,
    pub created_at: u64,
    pub updated_at: u64,
    pub reward_xlm: i128,
}

/// The mathematical value of a [`Job`].
#[verifier::ext_equal]
pub struct JobView {
    pub id: u64,
    pub channel_id: u64,
    pub creator: Address,
    pub title: Seq<u8>,
    pub description: Seq<u8>,
    pub job_type: JobType,
    pub status: JobStatus,
    pub scheduled_at: u64,
    pub deadline_at: u64,
    pub created_at: u64,
    pub updated_at: u64,
    pub reward_xlm: i128,
}

impl View for Job {
    type V = JobView;

    open spec fn view(&self) -> JobView {
        JobView {
            id: self.id,
            channel_id: self.channel_id,
            creator: self.creator,
            title: self.title@,
            description: self.description@,
            job_type: self.job_type,
            status: self.status,
            scheduled_at: self.scheduled_at,
            deadline_at: self.deadline_at,
            created_at: self.created_at,
            updated_at: self.updated_at,
            reward_xlm: self.reward_xlm,
        }
    }
}

#[derive(Clone, Copy, Debug, PartialEq, Eq, Structural)]
pub struct ViewerStats {
    pub content_id: u64,
    pub total_views: u64,
    pub unique_viewers: u64,
    pub last_viewed_at: u64,
}

/// A token transfer that settles a royalty payment: `amount` of `token`
/// moves from `from` to `to`.
#[derive(Clone, Copy, Debug, PartialEq, Eq, Structural)]
pub struct RoyaltyTransfer {
    pub token: Address,
    pub from: Address,
    pub to: Address,
    pub amount: i128,
}

/// A result whose success value is taken by its view.
pub open spec fn viewed<T: View, E>(r: Result<T, E>) -> Result<T::V, E> {
    match r {
        Ok(v) => Ok(v@),
        Err(e) => Err(e),
    }
}

fn copy_text(t: &Text) -> (r: Text)
    ensures
        r@ == t@,
{
    t.clone()
}

impl Channel {
    /// A copy of this channel with the same value.
    pub fn duplicate(&self) -> (r: Channel)
        ensures
            r@ == self@,
    {
        Channel {
            id: self.id,
            owner: self.owner,
            name: copy_text(&self.name),
            description: copy_text(&self.description),
            category: copy_text(&self.category),
            subscriber_count: self.subscriber_count,
            total_views: self.total_views,
            content_count: self.content_count,
            created_at: self.created_at,
            status: self.status,
            royalty_address: self.royalty_address,
        }
    }
}

impl Content {
    /// A copy of this content record with the same value.
    pub fn duplicate(&self) -> (r: Content)
        ensures
            r@ == self@,
    {
        Content {
            id: self.id,
            channel_id: self.channel_id,
            owner: self.owner,
            title: copy_text(&self.title),
            description: copy_text(&self.description),
            content_hash: copy_text(&self.content_hash),
            content_type: copy_text(&self.content_type),
            license: self.license,
            royalty_bps: self.royalty_bps,
            copyright_status: self.copyright_status,
            registered_at: self.registered_at,
            view_count: self.view_count,
        }
    }
}

impl Job {
    /// A copy of this job with the same value.
    pub fn duplicate(&self) -> (r: Job)
        ensures
            r@ == self@,
    {
        Job {
            id: self.id,
            channel_id: self.channel_id,
            creator: self.creator,
            title: copy_text(&self.title),
            description: copy_text(&self.description),
            job_type: self.job_type,
            status: self.status,
            scheduled_at: self.scheduled_at,
            deadline_at: self.deadline_at,
            created_at: self.created_at,
            updated_at: self.updated_at,
            reward_xlm: self.reward_xlm,
        }
    }
}

/// Byte-wise equality of two texts.
pub fn text_eq(a: &Text, b: &Text) -> (r: bool)
    ensures
        r == (a@ == b@),
{
    if a.len() != b.len() {
        return false;
    }
    let n = a.len();
    let mut i: usize = 0;
    while i < n
        invariant
            n == a@.len(),
            n == b@.len(),
            i <= n,
            forall|j: int| 0 <= j < i ==> a@[j] == b@[j],
        decreases n - i,
    {
        if a[i] != b[i] {
            return false;
        }
        i = i + 1;
    }
    assert(a@ =~= b@);
    true
}

} // verus!
