use vstd::prelude::*;

use crate::snapshot::{check_restorable, PlatformSnapshot};
use crate::model::{
    lemma_create_channel_keeps_inv, lemma_dispute_content_keeps_inv,
    lemma_record_view_keeps_inv, lemma_register_content_keeps_inv,
    lemma_resolve_dispute_keeps_inv, PlatformState,
};
use crate::types::{
    text_eq, viewed, Address, Channel, ChannelStatus, Content, ContractError, CopyrightStatus,
    Job, JobStatus, JobType, LicenseType, RoyaltyTransfer, Text, ViewerStats,
};

verus! {

/// The platform: all channels, subscriptions, content records and jobs.
///
/// The record with identifier `id` is stored at index `id - 1`;
/// `subscribers[i]` lists the subscribers of channel `i + 1` without
/// repetition; `viewers[i]` lists, without repetition, everyone who has
/// viewed content `i + 1`, and `ownership_claims[i]` belongs to it.
pub struct CreatorPlatformContract {
    channels: Vec<Channel>,
    subscribers: Vec<Vec<Address>>,
    contents: Vec<Content>,
    viewers: Vec<Vec<Address>>,
    ownership_claims: Vec<Option<Address>>,
    jobs: Vec<Job>,
}

impl View for CreatorPlatformContract {
    type V = PlatformState;

    closed spec fn view(&self) -> PlatformState {
        PlatformState {
            channels: self.channels@.map_values(|c: Channel| c@),
            subscribers: self.subscribers@.map_values(|v: Vec<Address>| v@.to_set()),
            contents: self.contents@.map_values(|c: Content| c@),
            viewers: self.viewers@.map_values(|v: Vec<Address>| v@.to_set()),
            ownership_claims: self.ownership_claims@,
            jobs: self.jobs@.map_values(|j: Job| j@),
        }
    }
}

/// The position of `a` in `v`, if it occurs there.
fn find_address(v: &Vec<Address>, a: Address) -> (r: Option<usize>)
    ensures
        match r {
            Some(k) => k < v@.len() && v@[k as int] == a,
            None => !v@.contains(a) && !v@.to_set().contains(a),
        },
{
    let n = v.len();
    let mut k: usize = 0;
    while k < n
        invariant
            n == v@.len(),
            k <= n,
            forall|j: int| 0 <= j < k ==> v@[j] != a,
        decreases n - k,
    {
        if v[k] == a {
            return Some(k);
        }
        k = k + 1;
    }
    None
}

/// Removing the element at `k` from a sequence without repetitions
/// removes exactly that element from its set of elements.
proof fn lemma_remove_to_set(s: Seq<Address>, k: int)
    requires
        s.no_duplicates(),
        0 <= k < s.len(),
    ensures
        s.remove(k).to_set() =~= s.to_set().remove(s[k]),
        s.remove(k).no_duplicates(),
{
    let t = s.remove(k);
    assert forall|x: Address| t.to_set().contains(x) implies s.to_set().remove(s[k]).contains(x) by {
        let j = choose|j: int| 0 <= j < t.len() && t[j] == x;
        if j < k {
            assert(s[j] == x);
        } else {
            assert(s[j + 1] == x);
        }
    }
    assert forall|x: Address| s.to_set().remove(s[k]).contains(x) implies t.to_set().contains(x) by {
        let j = choose|j: int| 0 <= j < s.len() && s[j] == x;
        assert(j != k);
        if j < k {
            assert(t[j] == x);
        } else {
            assert(t[j - 1] == x);
        }
    }
    assert forall|a: int, b: int| 0 <= a < t.len() && 0 <= b < t.len() && a != b implies t[a] != t[b] by {
        let sa = if a < k { a } else { a + 1 };
        let sb = if b < k { b } else { b + 1 };
        assert(t[a] == s[sa]);
        assert(t[b] == s[sb]);
    }
}

/// The identifier that follows `count` records.
fn next_id(count: usize) -> (r: u64)
    requires
        count < u64::MAX,
    ensures
        r == count + 1,
{
    count as u64 + 1
}

impl CreatorPlatformContract {
    /// The platform's state is well formed: its model satisfies the
    /// invariant and no subscriber or viewer is listed twice.
    pub closed spec fn wf(&self) -> bool {
        &&& self@.inv()
        &&& forall|i: int|
            0 <= i < self.subscribers@.len() ==> (#[trigger] self.subscribers@[i])@.no_duplicates()
        &&& forall|i: int|
            0 <= i < self.viewers@.len() ==> (#[trigger] self.viewers@[i])@.no_duplicates()
    }

    /// A well-formed platform's model satisfies the invariant, so every law
    /// stated of `PlatformState` under `inv` applies to it.
    pub proof fn lemma_wf_inv(&self)
        requires
            self.wf(),
        ensures
            self@.inv(),
    {
    }

    /// An empty platform.
    pub fn new() -> (r: Self)
        ensures
            r.wf(),
            r@ == PlatformState::empty(),
    {
        let r = CreatorPlatformContract {
            channels: Vec::new(),
            subscribers: Vec::new(),
            contents: Vec::new(),
            viewers: Vec::new(),
            ownership_claims: Vec::new(),
            jobs: Vec::new(),
        };
        assert(r@ =~= PlatformState::empty());
        r
    }

    /// The index of the channel that `owner` owns, if any.
    fn find_owner_channel(&self, owner: Address) -> (r: Option<usize>)
        requires
            self.wf(),
        ensures
            match r {
                Some(i) => i < self@.channels.len() && self@.channels[i as int].owner == owner,
                None => !self@.owns_a_channel(owner),
            },
    {
        let n = self.channels.len();
        let mut i: usize = 0;
        while i < n
            invariant
                n == self.channels@.len(),
                i <= n,
                forall|j: int| 0 <= j < i ==> (#[trigger] self.channels@[j]).owner != owner,
            decreases n - i,
        {
            if self.channels[i].owner == owner {
                return Some(i);
            }
            i = i + 1;
        }
        assert forall|j: int| 0 <= j < self@.channels.len() implies #[trigger] self@.channels[j].owner != owner by {
            assert(self.channels@[j].owner != owner);
        }
        None
    }

    /// Create a new channel owned by `owner` (one channel per owner) and
    /// return its identifier; `now` is the ledger time.
    pub fn create_channel(
        &mut self,
        owner: Address,
        name: Text,
        description: Text,
        category: Text,
        royalty_address: Address,
        now: u64,
    ) -> (r: Result<u64, ContractError>)
        requires
            old(self).wf(),
            old(self)@.create_channel_defined(owner),
        ensures
            final(self).wf(),
            (final(self)@, r) == old(self)@.create_channel(
                owner,
                name@,
                description@,
                category@,
                royalty_address,
                now,
            ),
    {
        if self.find_owner_channel(owner).is_some() {
            return Err(ContractError::AlreadyExists);
        }
        let id = next_id(self.channels.len());
        let channel = Channel {
            id,
            owner,
            name,
            description,
            category,
            subscriber_count: 0,
            total_views: 0,
            content_count: 0,
            created_at: now,
            status: ChannelStatus::Active,
            royalty_address,
        };
        let ghost pre = self@;
        self.channels.push(channel);
        self.subscribers.push(Vec::new());
        proof {
            let post = pre.create_channel(owner, name@, description@, category@, royalty_address, now).0;
            lemma_create_channel_keeps_inv(pre, owner, name@, description@, category@, royalty_address, now);
            assert(self.subscribers@[self.subscribers@.len() - 1]@ =~= Seq::<Address>::empty());
            assert(self@.subscribers[self@.subscribers.len() - 1] =~= Set::empty());
            assert(self@.channels =~= post.channels);
            assert(self@.subscribers =~= post.subscribers);
            assert(self@ =~= post);
        }
        Ok(id)
    }

    /// The index of channel `channel_id`, if it exists.
    fn channel_index(&self, channel_id: u64) -> (r: Option<usize>)
        ensures
            match r {
                Some(i) => self@.has_channel(channel_id) && i == channel_id - 1,
                None => !self@.has_channel(channel_id),
            },
    {
        if channel_id >= 1 && channel_id <= self.channels.len() as u64 {
            Some((channel_id - 1) as usize)
        } else {
            None
        }
    }

    /// Update a channel's name, description and category. Only its owner
    /// may do so, and not while the channel is suspended.
    pub fn update_channel(
        &mut self,
        owner: Address,
        channel_id: u64,
        name: Text,
        description: Text,
        category: Text,
    ) -> (r: Result<(), ContractError>)
        requires
            old(self).wf(),
        ensures
            final(self).wf(),
            (final(self)@, r) == old(self)@.update_channel(
                owner,
                channel_id,
                name@,
                description@,
                category@,
            ),
    {
        let i = match self.channel_index(channel_id) {
            Some(i) => i,
            None => return Err(ContractError::NotFound),
        };
        if self.channels[i].owner != owner {
            return Err(ContractError::Unauthorized);
        }
        if self.channels[i].status == ChannelStatus::Suspended {
            return Err(ContractError::ChannelSuspended);
        }
        let ghost pre = self@;
        self.channels[i].name = name;
        self.channels[i].description = description;
        self.channels[i].category = category;
        proof {
            let post = pre.update_channel(owner, channel_id, name@, description@, category@).0;
            assert(self@.channels =~= post.channels);
            assert(self@ =~= post);
        }
        Ok(())
    }

    /// The channel `channel_id`.
    pub fn get_channel(&self, channel_id: u64) -> (r: Result<Channel, ContractError>)
        ensures
            viewed(r) == self@.get_channel(channel_id),
    {
        match self.channel_index(channel_id) {
            Some(i) => Ok(self.channels[i].duplicate()),
            None => Err(ContractError::NotFound),
        }
    }

    /// The identifier of the channel that `owner` owns.
    pub fn get_channel_by_owner(&self, owner: Address) -> (r: Result<u64, ContractError>)
        requires
            self.wf(),
        ensures
            r == self@.get_channel_by_owner(owner),
    {
        match self.find_owner_channel(owner) {
            Some(i) => {
                proof {
                    let k = choose|k: int| 0 <= k < self@.channels.len() && #[trigger] self@.channels[k].owner == owner;
                    assert(k == i);
                }
                Ok(self.channels[i].id)
            },
            None => Err(ContractError::NotFound),
        }
    }

    /// `user` is subscribed to the channel `channel_id`.
    pub fn is_subscribed(&self, user: Address, channel_id: u64) -> (r: bool)
        requires
            self.wf(),
        ensures
            r == self@.is_subscribed(user, channel_id),
    {
        match self.channel_index(channel_id) {
            Some(i) => find_address(&self.subscribers[i], user).is_some(),
            None => false,
        }
    }

    /// Subscribe `user` to the channel `channel_id`; returns the channel's
    /// new subscriber count.
    pub fn subscribe(&mut self, user: Address, channel_id: u64) -> (r: Result<u64, ContractError>)
        requires
            old(self).wf(),
            old(self)@.subscribe_defined(user, channel_id),
        ensures
            final(self).wf(),
            (final(self)@, r) == old(self)@.subscribe(user, channel_id),
    {
        let i = match self.channel_index(channel_id) {
            Some(i) => i,
            None => return Err(ContractError::NotFound),
        };
        if find_address(&self.subscribers[i], user).is_some() {
            return Err(ContractError::AlreadyExists);
        }
        let ghost pre = self@;
        let ghost list = self.subscribers@[i as int]@;
        let count = self.channels[i].subscriber_count + 1;
        self.channels[i].subscriber_count = count;
        self.subscribers[i].push(user);
        proof {
            broadcast use vstd::seq_lib::group_seq_lib_default;
            list.lemma_push_to_set_commute(user);
            list.unique_seq_to_set();
            assert(self.subscribers@[i as int]@ == list.push(user));
            assert(self.subscribers@[i as int]@.no_duplicates());
            let post = pre.subscribe(user, channel_id).0;
            assert(self@.channels =~= post.channels);
            assert(self@.subscribers =~= post.subscribers);
            assert(self@ =~= post);
        }
        Ok(count)
    }

    /// Unsubscribe `user` from the channel `channel_id`; returns the
    /// channel's new subscriber count.
    pub fn unsubscribe(&mut self, user: Address, channel_id: u64) -> (r: Result<u64, ContractError>)
        requires
            old(self).wf(),
        ensures
            final(self).wf(),
            (final(self)@, r) == old(self)@.unsubscribe(user, channel_id),
    {
        let i = match self.channel_index(channel_id) {
            Some(i) => i,
            None => return Err(ContractError::NotFound),
        };
        let k = match find_address(&self.subscribers[i], user) {
            Some(k) => k,
            None => return Err(ContractError::NotFound),
        };
        let ghost pre = self@;
        let ghost list = self.subscribers@[i as int]@;
        let old_count = self.channels[i].subscriber_count;
        let count = if old_count > 0 {
            old_count - 1
        } else {
            0
        };
        self.channels[i].subscriber_count = count;
        self.subscribers[i].remove(k);
        proof {
            broadcast use vstd::seq_lib::group_seq_lib_default;
            lemma_remove_to_set(list, k as int);
            list.unique_seq_to_set();
            assert(self.subscribers@[i as int]@ == list.remove(k as int));
            let post = pre.unsubscribe(user, channel_id).0;
            assert(self@.channels =~= post.channels);
            assert(self@.subscribers =~= post.subscribers);
            assert(self@ =~= post);
        }
        Ok(count)
    }

    /// The index of content `content_id`, if it exists.
    fn content_index(&self, content_id: u64) -> (r: Option<usize>)
        ensures
            match r {
                Some(i) => self@.has_content(content_id) && i == content_id - 1,
                None => !self@.has_content(content_id),
            },
    {
        if content_id >= 1 && content_id <= self.contents.len() as u64 {
            Some((content_id - 1) as usize)
        } else {
            None
        }
    }

    /// Register new content, with its copyright, on a channel that `owner`
    /// owns; returns the content's identifier. `royalty_bps` is at most
    /// 10 000 (100%).
    pub fn register_content(
        &mut self,
        owner: Address,
        channel_id: u64,
        title: Text,
        description: Text,
        content_hash: Text,
        content_type: Text,
        license: LicenseType,
        royalty_bps: u32,
        now: u64,
    ) -> (r: Result<u64, ContractError>)
        requires
            old(self).wf(),
            old(self)@.register_content_defined(owner, channel_id, royalty_bps),
        ensures
            final(self).wf(),
            (final(self)@, r) == old(self)@.register_content(
                owner,
                channel_id,
                title@,
                description@,
                content_hash@,
                content_type@,
                license,
                royalty_bps,
                now,
            ),
    {
        if royalty_bps > 10_000 {
            return Err(ContractError::InvalidInput);
        }
        let i = match self.channel_index(channel_id) {
            Some(i) => i,
            None => return Err(ContractError::NotFound),
        };
        if self.channels[i].owner != owner {
            return Err(ContractError::Unauthorized);
        }
        let id = next_id(self.contents.len());
        let ghost pre = self@;
        let content = Content {
            id,
            channel_id,
            owner,
            title,
            description,
            content_hash,
            content_type,
            license,
            royalty_bps,
            copyright_status: CopyrightStatus::Registered,
            registered_at: now,
            view_count: 0,
        };
        self.contents.push(content);
        let count = self.channels[i].content_count + 1;
        self.channels[i].content_count = count;
        self.viewers.push(Vec::new());
        self.ownership_claims.push(None);
        proof {
            lemma_register_content_keeps_inv(
                pre,
                owner,
                channel_id,
                title@,
                description@,
                content_hash@,
                content_type@,
                license,
                royalty_bps,
                now,
            );
            let post = pre.register_content(
                owner,
                channel_id,
                title@,
                description@,
                content_hash@,
                content_type@,
                license,
                royalty_bps,
                now,
            ).0;
            assert(self@.channels =~= post.channels);
            assert(self@.contents =~= post.contents);
            assert(self.viewers@[self.viewers@.len() - 1]@ =~= Seq::<Address>::empty());
            assert(self@.viewers[self@.viewers.len() - 1] =~= Set::empty());
            assert(self@.viewers =~= post.viewers);
            assert(self@.ownership_claims =~= post.ownership_claims);
            assert(self@ =~= post);
        }
        Ok(id)
    }

    /// The content record `content_id`, with its copyright status.
    pub fn get_content(&self, content_id: u64) -> (r: Result<Content, ContractError>)
        ensures
            viewed(r) == self@.get_content(content_id),
    {
        match self.content_index(content_id) {
            Some(i) => Ok(self.contents[i].duplicate()),
            None => Err(ContractError::NotFound),
        }
    }

    /// Whether `hash_to_check` matches the registered hash of content
    /// `content_id` and its copyright stands registered.
    pub fn verify_content_hash(&self, content_id: u64, hash_to_check: &Text) -> (r: Result<
        bool,
        ContractError,
    >)
        ensures
            r == self@.verify_content_hash(content_id, hash_to_check@),
    {
        match self.content_index(content_id) {
            Some(i) => {
                let c = &self.contents[i];
                Ok(text_eq(&c.content_hash, hash_to_check) && c.copyright_status
                    == CopyrightStatus::Registered)
            },
            None => Err(ContractError::NotFound),
        }
    }

    /// File a copyright dispute by `disputer` against registered content.
    pub fn dispute_content(&mut self, disputer: Address, content_id: u64) -> (r: Result<
        (),
        ContractError,
    >)
        requires
            old(self).wf(),
        ensures
            final(self).wf(),
            (final(self)@, r) == old(self)@.dispute_content(disputer, content_id),
    {
        let i = match self.content_index(content_id) {
            Some(i) => i,
            None => return Err(ContractError::NotFound),
        };
        if self.contents[i].copyright_status != CopyrightStatus::Registered {
            return Err(ContractError::InvalidInput);
        }
        let ghost pre = self@;
        self.contents[i].copyright_status = CopyrightStatus::Disputed;
        self.ownership_claims.set(i, Some(disputer));
        proof {
            lemma_dispute_content_keeps_inv(pre, disputer, content_id);
            let post = pre.dispute_content(disputer, content_id).0;
            assert(self@.contents =~= post.contents);
            assert(self@.ownership_claims =~= post.ownership_claims);
            assert(self@ =~= post);
        }
        Ok(())
    }

    /// Resolve the dispute on content `content_id`: its copyright is
    /// upheld (registered again) or revoked, and the claim is dropped.
    pub fn resolve_dispute(&mut self, content_id: u64, uphold_original: bool) -> (r: Result<
        (),
        ContractError,
    >)
        requires
            old(self).wf(),
        ensures
            final(self).wf(),
            (final(self)@, r) == old(self)@.resolve_dispute(content_id, uphold_original),
    {
        let i = match self.content_index(content_id) {
            Some(i) => i,
            None => return Err(ContractError::NotFound),
        };
        if self.contents[i].copyright_status != CopyrightStatus::Disputed {
            return Err(ContractError::InvalidInput);
        }
        let ghost pre = self@;
        self.contents[i].copyright_status = if uphold_original {
            CopyrightStatus::Registered
        } else {
            CopyrightStatus::Revoked
        };
        self.ownership_claims.set(i, None);
        proof {
            lemma_resolve_dispute_keeps_inv(pre, content_id, uphold_original);
            let post = pre.resolve_dispute(content_id, uphold_original).0;
            assert(self@.contents =~= post.contents);
            assert(self@.ownership_claims =~= post.ownership_claims);
            assert(self@ =~= post);
        }
        Ok(())
    }

    /// The royalty payment that `payer` makes for content `content_id`:
    /// `amount_stroops` of the token `xlm_token`, to the royalty address
    /// of the content's channel. Refused while the content is disputed or
    /// revoked.
    pub fn pay_royalty(
        &self,
        payer: Address,
        content_id: u64,
        xlm_token: Address,
        amount_stroops: i128,
    ) -> (r: Result<RoyaltyTransfer, ContractError>)
        ensures
            r == self@.pay_royalty(payer, content_id, xlm_token, amount_stroops),
    {
        let i = match self.content_index(content_id) {
            Some(i) => i,
            None => return Err(ContractError::NotFound),
        };
        let status = self.contents[i].copyright_status;
        if status == CopyrightStatus::Revoked || status == CopyrightStatus::Disputed {
            return Err(ContractError::ContentDisputed);
        }
        let ch = match self.channel_index(self.contents[i].channel_id) {
            Some(ch) => ch,
            None => return Err(ContractError::NotFound),
        };
        Ok(
            RoyaltyTransfer {
                token: xlm_token,
                from: payer,
                to: self.channels[ch].royalty_address,
                amount: amount_stroops,
            },
        )
    }

    /// `viewer` views content `content_id`. Its total views grow by one,
    /// and so do its channel's; its unique viewers grow by one exactly when
    /// this is the viewer's first view of it. Returns the new total.
    pub fn record_view(&mut self, viewer: Address, content_id: u64) -> (r: Result<
        u64,
        ContractError,
    >)
        requires
            old(self).wf(),
            old(self)@.record_view_defined(content_id),
        ensures
            final(self).wf(),
            (final(self)@, r) == old(self)@.record_view(viewer, content_id),
    {
        let i = match self.content_index(content_id) {
            Some(i) => i,
            None => return Err(ContractError::NotFound),
        };
        if self.contents[i].copyright_status == CopyrightStatus::Revoked {
            return Err(ContractError::ContentDisputed);
        }
        let ch = match self.channel_index(self.contents[i].channel_id) {
            Some(ch) => ch,
            None => return Err(ContractError::NotFound),
        };
        let ghost pre = self@;
        let ghost list = self.viewers@[i as int]@;
        let new_total = self.contents[i].view_count + 1;
        self.contents[i].view_count = new_total;
        if find_address(&self.viewers[i], viewer).is_none() {
            self.viewers[i].push(viewer);
            proof {
                broadcast use vstd::seq_lib::group_seq_lib_default;
                list.lemma_push_to_set_commute(viewer);
                assert(self.viewers@[i as int]@ == list.push(viewer));
                assert(self.viewers@[i as int]@.no_duplicates());
            }
        } else {
            proof {
                assert(list.to_set().insert(viewer) =~= list.to_set());
            }
        }
        let channel_views = self.channels[ch].total_views + 1;
        self.channels[ch].total_views = channel_views;
        proof {
            lemma_record_view_keeps_inv(pre, viewer, content_id);
            let post = pre.record_view(viewer, content_id).0;
            assert(self@.channels =~= post.channels);
            assert(self@.contents =~= post.contents);
            assert(self@.viewers =~= post.viewers);
            assert(self@ =~= post);
        }
        Ok(new_total)
    }

    /// Viewer statistics of content `content_id`, stamped with the ledger
    /// time `now`.
    pub fn get_viewer_stats(&self, content_id: u64, now: u64) -> (r: Result<
        ViewerStats,
        ContractError,
    >)
        requires
            self.wf(),
        ensures
            r == self@.get_viewer_stats(content_id, now),
    {
        match self.content_index(content_id) {
            Some(i) => {
                proof {
                    self.viewers@[i as int]@.unique_seq_to_set();
                }
                Ok(
                    ViewerStats {
                        content_id,
                        total_views: self.contents[i].view_count,
                        unique_viewers: self.viewers[i].len() as u64,
                        last_viewed_at: now,
                    },
                )
            },
            None => Err(ContractError::NotFound),
        }
    }

    /// Total views of all content of the channel `channel_id`.
    pub fn get_channel_views(&self, channel_id: u64) -> (r: Result<u64, ContractError>)
        ensures
            r == self@.get_channel_views(channel_id),
    {
        match self.channel_index(channel_id) {
            Some(i) => Ok(self.channels[i].total_views),
            None => Err(ContractError::NotFound),
        }
    }

    /// Subscriber count of the channel `channel_id`.
    pub fn get_subscriber_count(&self, channel_id: u64) -> (r: Result<u64, ContractError>)
        ensures
            r == self@.get_subscriber_count(channel_id),
    {
        match self.channel_index(channel_id) {
            Some(i) => Ok(self.channels[i].subscriber_count),
            None => Err(ContractError::NotFound),
        }
    }

    /// The index of job `job_id`, if it exists.
    fn job_index(&self, job_id: u64) -> (r: Option<usize>)
        ensures
            match r {
                Some(i) => self@.has_job(job_id) && i == job_id - 1,
                None => !self@.has_job(job_id),
            },
    {
        if job_id >= 1 && job_id <= self.jobs.len() as u64 {
            Some((job_id - 1) as usize)
        } else {
            None
        }
    }

    /// Create a pending job for the channel `channel_id`, which `creator`
    /// must own; it must be scheduled before its deadline. Returns the
    /// job's identifier.
    pub fn create_job(
        &mut self,
        creator: Address,
        channel_id: u64,
        title: Text,
        description: Text,
        job_type: JobType,
        scheduled_at: u64,
        deadline_at: u64,
        reward_xlm: i128,
        now: u64,
    ) -> (r: Result<u64, ContractError>)
        requires
            old(self).wf(),
            old(self)@.create_job_defined(creator, channel_id, scheduled_at, deadline_at),
        ensures
            final(self).wf(),
            (final(self)@, r) == old(self)@.create_job(
                creator,
                channel_id,
                title@,
                description@,
                job_type,
                scheduled_at,
                deadline_at,
                reward_xlm,
                now,
            ),
    {
        let i = match self.channel_index(channel_id) {
            Some(i) => i,
            None => return Err(ContractError::NotFound),
        };
        if self.channels[i].owner != creator {
            return Err(ContractError::Unauthorized);
        }
        if scheduled_at >= deadline_at {
            return Err(ContractError::InvalidInput);
        }
        let id = next_id(self.jobs.len());
        let ghost pre = self@;
        let job = Job {
            id,
            channel_id,
            creator,
            title,
            description,
            job_type,
            status: JobStatus::Pending,
            scheduled_at,
            deadline_at,
            created_at: now,
            updated_at: now,
            reward_xlm,
        };
        self.jobs.push(job);
        proof {
            let post = pre.create_job(
                creator,
                channel_id,
                title@,
                description@,
                job_type,
                scheduled_at,
                deadline_at,
                reward_xlm,
                now,
            ).0;
            assert(self@.jobs =~= post.jobs);
            assert(self@ =~= post);
        }
        Ok(id)
    }

    /// Move job `job_id` to `new_status`, at ledger time `now`. Only the
    /// job's creator may, and only along the job life cycle: a pending
    /// job starts or is cancelled; a job in progress completes, fails or
    /// is cancelled.
    pub fn update_job_status(
        &mut self,
        caller: Address,
        job_id: u64,
        new_status: JobStatus,
        now: u64,
    ) -> (r: Result<(), ContractError>)
        requires
            old(self).wf(),
        ensures
            final(self).wf(),
            (final(self)@, r) == old(self)@.update_job_status(caller, job_id, new_status, now),
    {
        let i = match self.job_index(job_id) {
            Some(i) => i,
            None => return Err(ContractError::NotFound),
        };
        if self.jobs[i].creator != caller {
            return Err(ContractError::Unauthorized);
        }
        let allowed = match (self.jobs[i].status, new_status) {
            (JobStatus::Pending, JobStatus::InProgress) => true,
            (JobStatus::Pending, JobStatus::Cancelled) => true,
            (JobStatus::InProgress, JobStatus::Completed) => true,
            (JobStatus::InProgress, JobStatus::Failed) => true,
            (JobStatus::InProgress, JobStatus::Cancelled) => true,
            _ => false,
        };
        if !allowed {
            return Err(ContractError::InvalidInput);
        }
        let ghost pre = self@;
        self.jobs[i].status = new_status;
        self.jobs[i].updated_at = now;
        proof {
            let post = pre.update_job_status(caller, job_id, new_status, now).0;
            assert(self@.jobs =~= post.jobs);
            assert(self@ =~= post);
        }
        Ok(())
    }

    /// The job `job_id`.
    pub fn get_job(&self, job_id: u64) -> (r: Result<Job, ContractError>)
        ensures
            viewed(r) == self@.get_job(job_id),
    {
        match self.job_index(job_id) {
            Some(i) => Ok(self.jobs[i].duplicate()),
            None => Err(ContractError::NotFound),
        }
    }

    /// Cancel job `job_id` at ledger time `now`; only its creator may, and
    /// only while it is pending or in progress.
    pub fn cancel_job(&mut self, caller: Address, job_id: u64, now: u64) -> (r: Result<
        (),
        ContractError,
    >)
        requires
            old(self).wf(),
        ensures
            final(self).wf(),
            (final(self)@, r) == old(self)@.cancel_job(caller, job_id, now),
    {
        let i = match self.job_index(job_id) {
            Some(i) => i,
            None => return Err(ContractError::NotFound),
        };
        if self.jobs[i].creator != caller {
            return Err(ContractError::Unauthorized);
        }
        if self.jobs[i].status != JobStatus::Pending && self.jobs[i].status != JobStatus::InProgress {
            return Err(ContractError::InvalidInput);
        }
        let ghost pre = self@;
        self.jobs[i].status = JobStatus::Cancelled;
        self.jobs[i].updated_at = now;
        proof {
            let post = pre.cancel_job(caller, job_id, now).0;
            assert(self@.jobs =~= post.jobs);
            assert(self@ =~= post);
        }
        Ok(())
    }

    /// Number of jobs created so far.
    pub fn get_job_count(&self) -> (r: u64)
        requires
            self.wf(),
        ensures
            r == self@.jobs.len(),
    {
        self.jobs.len() as u64
    }

    /// Number of channels created so far.
    pub fn get_channel_count(&self) -> (r: u64)
        requires
            self.wf(),
        ensures
            r == self@.channels.len(),
    {
        self.channels.len() as u64
    }

    /// Number of content records registered so far.
    pub fn get_content_count(&self) -> (r: u64)
        requires
            self.wf(),
        ensures
            r == self@.contents.len(),
    {
        self.contents.len() as u64
    }

    /// The platform's records, laid out for storage.
    pub fn into_snapshot(self) -> (r: PlatformSnapshot)
        requires
            self.wf(),
        ensures
            r.restorable(),
            r.model() == self@,
    {
        let r = PlatformSnapshot {
            channels: self.channels,
            subscribers: self.subscribers,
            contents: self.contents,
            viewers: self.viewers,
            ownership_claims: self.ownership_claims,
            jobs: self.jobs,
        };
        assert(r.model() =~= self@);
        r
    }

    /// The platform that a stored layout describes, or `None` when the
    /// layout is not a state the platform can be in.
    pub fn from_snapshot(snapshot: PlatformSnapshot) -> (r: Option<Self>)
        ensures
            r is Some <==> snapshot.restorable(),
            r matches Some(p) ==> p.wf() && p@ == snapshot.model(),
    {
        if !check_restorable(&snapshot) {
            return None;
        }
        let p = CreatorPlatformContract {
            channels: snapshot.channels,
            subscribers: snapshot.subscribers,
            contents: snapshot.contents,
            viewers: snapshot.viewers,
            ownership_claims: snapshot.ownership_claims,
            jobs: snapshot.jobs,
        };
        assert(p@ =~= snapshot.model());
        Some(p)
    }
}

} // verus!
