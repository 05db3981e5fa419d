//! A platform's state laid out in plain vectors, for storage between
//! calls, and the check that decides whether such a layout is a state the
//! platform can be in.
use vstd::prelude::*;

use crate::model::{
    contents_in, lemma_tallies_prefix, lemma_tallies_prefix_step, views_in, PlatformState,
};
use crate::types::{Address, Channel, Content, CopyrightStatus, Job};

verus! {

/// The platform's records, laid out as
/// [`crate::CreatorPlatformContract`] keeps them: the record with
/// identifier `id` at index `id - 1`, and `subscribers`, `viewers`,
/// `ownership_claims` parallel to their records.
pub struct PlatformSnapshot {
    pub channels: Vec<Channel>,
    pub subscribers: Vec<Vec<Address>>,
    pub contents: Vec<Content>,
    pub viewers: Vec<Vec<Address>>,
    pub ownership_claims: Vec<Option<Address>>,
    pub jobs: Vec<Job>,
}

impl PlatformSnapshot {
    /// The platform state that this layout describes.
    pub open spec fn model(&self) -> PlatformState {
        PlatformState {
            channels: self.channels@.map_values(|c: Channel| c@),
            subscribers: self.subscribers@.map_values(|v: Vec<Address>| v@.to_set()),
            contents: self.contents@.map_values(|c: Content| c@),
            viewers: self.viewers@.map_values(|v: Vec<Address>| v@.to_set()),
            ownership_claims: self.ownership_claims@,
            jobs: self.jobs@.map_values(|j: Job| j@),
        }
    }

    /// No subscriber list names an address twice.
    pub open spec fn subscriber_lists_distinct(&self) -> bool {
        forall|i: int|
            0 <= i < self.subscribers@.len() ==> (#[trigger] self.subscribers@[i])@.no_duplicates()
    }

    /// No viewer list names an address twice.
    pub open spec fn viewer_lists_distinct(&self) -> bool {
        forall|i: int| 0 <= i < self.viewers@.len() ==> (#[trigger] self.viewers@[i])@.no_duplicates()
    }

    /// The layout describes a state the platform can be in.
    pub open spec fn restorable(&self) -> bool {
        &&& self.model().inv()
        &&& self.subscriber_lists_distinct()
        &&& self.viewer_lists_distinct()
    }
}

fn check_sizes(s: &PlatformSnapshot) -> (r: bool)
    ensures
        r == s.model().sizes_agree(),
{
    s.subscribers.len() == s.channels.len() && s.viewers.len() == s.contents.len()
        && s.ownership_claims.len() == s.contents.len()
}

fn check_channels(s: &PlatformSnapshot) -> (r: bool)
    ensures
        r == s.model().channels_well_formed(),
{
    let ghost m = s.model();
    let n = s.channels.len();
    let mut i: usize = 0;
    while i < n
        invariant
            n == s.channels@.len(),
            m == s.model(),
            i <= n,
            forall|k: int| 0 <= k < i ==> #[trigger] m.channels[k].id == k + 1,
            forall|a: int, b: int|
                0 <= a < i && 0 <= b < i && a != b ==> #[trigger] m.channels[a].owner
                    != #[trigger] m.channels[b].owner,
        decreases n - i,
    {
        if s.channels[i].id != i as u64 + 1 {
            assert(m.channels[i as int].id != i + 1);
            return false;
        }
        let mut j: usize = 0;
        while j < i
            invariant
                n == s.channels@.len(),
                m == s.model(),
                j <= i < n,
                forall|b: int| 0 <= b < j ==> #[trigger] m.channels[b].owner != m.channels[i as int].owner,
            decreases i - j,
        {
            if s.channels[j].owner == s.channels[i].owner {
                assert(m.channels[j as int].owner == m.channels[i as int].owner);
                return false;
            }
            j = j + 1;
        }
        i = i + 1;
    }
    true
}

/// Whether `v` names no address twice.
fn distinct_addresses(v: &Vec<Address>) -> (r: bool)
    ensures
        r == v@.no_duplicates(),
{
    let n = v.len();
    let mut i: usize = 0;
    while i < n
        invariant
            n == v@.len(),
            i <= n,
            forall|a: int, b: int| 0 <= a < i && 0 <= b < i && a != b ==> v@[a] != v@[b],
        decreases n - i,
    {
        let mut j: usize = 0;
        while j < i
            invariant
                n == v@.len(),
                j <= i < n,
                forall|b: int| 0 <= b < j ==> v@[b] != v@[i as int],
            decreases i - j,
        {
            if v[j] == v[i] {
                return false;
            }
            j = j + 1;
        }
        i = i + 1;
    }
    true
}

fn check_subscribers(s: &PlatformSnapshot) -> (r: bool)
    requires
        s.model().sizes_agree(),
    ensures
        r == (s.model().subscribers_counted() && s.subscriber_lists_distinct()),
{
    broadcast use vstd::seq_lib::group_seq_lib_default;

    let ghost m = s.model();
    let n = s.channels.len();
    let mut i: usize = 0;
    while i < n
        invariant
            n == s.channels@.len(),
            n == s.subscribers@.len(),
            m == s.model(),
            i <= n,
            forall|k: int|
                0 <= k < i ==> {
                    &&& (#[trigger] m.subscribers[k]).finite()
                    &&& m.subscribers[k].len() == m.channels[k].subscriber_count
                },
            forall|k: int| 0 <= k < i ==> (#[trigger] s.subscribers@[k])@.no_duplicates(),
        decreases n - i,
    {
        let list = &s.subscribers[i];
        assert(m.subscribers[i as int] == list@.to_set());
        if !distinct_addresses(list) {
            assert(!s.subscribers@[i as int]@.no_duplicates());
            return false;
        }
        proof {
            list@.unique_seq_to_set();
        }
        if list.len() as u64 != s.channels[i].subscriber_count {
            assert(m.subscribers[i as int].len() != m.channels[i as int].subscriber_count);
            return false;
        }
        i = i + 1;
    }
    true
}

fn check_contents(s: &PlatformSnapshot) -> (r: bool)
    requires
        s.model().sizes_agree(),
    ensures
        r == (s.model().contents_well_formed() && s.viewer_lists_distinct()),
{
    broadcast use vstd::seq_lib::group_seq_lib_default;

    let ghost m = s.model();
    let n = s.contents.len();
    let channel_count = s.channels.len();
    let mut i: usize = 0;
    while i < n
        invariant
            n == s.contents@.len(),
            channel_count == s.channels@.len(),
            m == s.model(),
            m.sizes_agree(),
            i <= n,
            forall|k: int|
                0 <= k < i ==> {
                    let c = #[trigger] m.contents[k];
                    &&& c.id == k + 1
                    &&& m.has_channel(c.channel_id)
                    &&& c.owner == m.channel(c.channel_id).owner
                    &&& c.royalty_bps <= 10_000
                    &&& m.viewers[k].finite()
                    &&& m.viewers[k].len() <= c.view_count
                    &&& (m.ownership_claims[k] is Some <==> c.copyright_status
                        == CopyrightStatus::Disputed)
                    &&& c.copyright_status != CopyrightStatus::Resolved
                },
            forall|k: int| 0 <= k < i ==> (#[trigger] s.viewers@[k])@.no_duplicates(),
        decreases n - i,
    {
        let c = &s.contents[i];
        let ghost cv = m.contents[i as int];
        if c.id != i as u64 + 1 {
            return false;
        }
        if c.channel_id < 1 || c.channel_id > channel_count as u64 {
            assert(!m.has_channel(cv.channel_id));
            return false;
        }
        if c.owner != s.channels[(c.channel_id - 1) as usize].owner {
            return false;
        }
        if c.royalty_bps > 10_000 {
            return false;
        }
        let seen = &s.viewers[i];
        assert(m.viewers[i as int] == seen@.to_set());
        if !distinct_addresses(seen) {
            assert(!s.viewers@[i as int]@.no_duplicates());
            return false;
        }
        proof {
            seen@.unique_seq_to_set();
        }
        if seen.len() as u64 > c.view_count {
            return false;
        }
        if s.ownership_claims[i].is_some() != (c.copyright_status == CopyrightStatus::Disputed) {
            return false;
        }
        if c.copyright_status == CopyrightStatus::Resolved {
            return false;
        }
        i = i + 1;
    }
    true
}

fn check_jobs(s: &PlatformSnapshot) -> (r: bool)
    ensures
        r == s.model().jobs_well_formed(),
{
    let ghost m = s.model();
    let n = s.jobs.len();
    let channel_count = s.channels.len();
    let mut i: usize = 0;
    while i < n
        invariant
            n == s.jobs@.len(),
            channel_count == s.channels@.len(),
            m == s.model(),
            i <= n,
            forall|k: int|
                0 <= k < i ==> {
                    let j = #[trigger] m.jobs[k];
                    &&& j.id == k + 1
                    &&& m.has_channel(j.channel_id)
                    &&& j.creator == m.channel(j.channel_id).owner
                    &&& j.scheduled_at < j.deadline_at
                },
        decreases n - i,
    {
        let j = &s.jobs[i];
        let ghost jv = m.jobs[i as int];
        if j.id != i as u64 + 1 {
            return false;
        }
        if j.channel_id < 1 || j.channel_id > channel_count as u64 {
            assert(!m.has_channel(jv.channel_id));
            return false;
        }
        if j.creator != s.channels[(j.channel_id - 1) as usize].owner {
            return false;
        }
        if j.scheduled_at >= j.deadline_at {
            return false;
        }
        i = i + 1;
    }
    true
}

/// A vector of `n` zeros.
fn zeros(n: usize) -> (r: Vec<u64>)
    ensures
        r@.len() == n,
        forall|i: int| 0 <= i < n ==> #[trigger] r@[i] == 0,
{
    let mut r: Vec<u64> = Vec::new();
    let mut i: usize = 0;
    while i < n
        invariant
            i <= n,
            r@.len() == i,
            forall|k: int| 0 <= k < i ==> #[trigger] r@[k] == 0,
        decreases n - i,
    {
        r.push(0);
        i = i + 1;
    }
    r
}

fn check_tallies(s: &PlatformSnapshot) -> (r: bool)
    requires
        s.model().sizes_agree(),
        s.model().contents_well_formed(),
    ensures
        r == s.model().tallies_match(),
{
    let ghost m = s.model();
    let n = s.channels.len();
    let mut counts = zeros(n);
    let mut views = zeros(n);
    let total = s.contents.len();
    let mut k: usize = 0;
    assert forall|c: int| 0 <= c < n implies {
        &&& #[trigger] counts@[c] == contents_in(m.contents.take(0), (c + 1) as u64)
        &&& views@[c] == views_in(m.contents.take(0), (c + 1) as u64)
    } by {
        assert(m.contents.take(0) =~= Seq::<crate::types::ContentView>::empty());
    }
    while k < total
        invariant
            n == s.channels@.len(),
            total == s.contents@.len(),
            m == s.model(),
            m.contents_well_formed(),
            k <= total,
            counts@.len() == n,
            views@.len() == n,
            forall|c: int|
                0 <= c < n ==> {
                    &&& #[trigger] counts@[c] == contents_in(m.contents.take(k as int), (c + 1) as u64)
                    &&& views@[c] == views_in(m.contents.take(k as int), (c + 1) as u64)
                    &&& counts@[c] <= m.channels[c].content_count
                    &&& views@[c] <= m.channels[c].total_views
                },
        decreases total - k,
    {
        let ghost cv = m.contents[k as int];
        assert(m.has_channel(cv.channel_id));
        assert(cv == s.contents@[k as int]@);
        let ch = (s.contents[k].channel_id - 1) as usize;
        let vc = s.contents[k].view_count;
        assert(ch == cv.channel_id - 1 && vc == cv.view_count);
        proof {
            assert forall|c: int| 0 <= c < n implies {
                &&& #[trigger] contents_in(m.contents.take(k + 1), (c + 1) as u64) == contents_in(
                    m.contents.take(k as int),
                    (c + 1) as u64,
                ) + if c == ch {
                    1nat
                } else {
                    0nat
                }
                &&& views_in(m.contents.take(k + 1), (c + 1) as u64) == views_in(
                    m.contents.take(k as int),
                    (c + 1) as u64,
                ) + if c == ch {
                    cv.view_count as nat
                } else {
                    0nat
                }
            } by {
                lemma_tallies_prefix_step(m.contents, k as int, (c + 1) as u64);
            }
            lemma_tallies_prefix(m.contents, k + 1, (ch + 1) as u64);
            assert(m.contents.take(total as int) =~= m.contents);
        }
        if counts[ch] == s.channels[ch].content_count {
            assert(m.channels[ch as int].content_count != contents_in(m.contents, (ch + 1) as u64));
            return false;
        }
        if vc > s.channels[ch].total_views || views[ch] > s.channels[ch].total_views - vc {
            assert(m.channels[ch as int].total_views != views_in(m.contents, (ch + 1) as u64));
            return false;
        }
        let next_count = counts[ch] + 1;
        counts.set(ch, next_count);
        let next_views = views[ch] + vc;
        views.set(ch, next_views);
        k = k + 1;
    }
    assert(m.contents.take(total as int) =~= m.contents);
    let mut c: usize = 0;
    while c < n
        invariant
            n == s.channels@.len(),
            m == s.model(),
            c <= n,
            counts@.len() == n,
            views@.len() == n,
            forall|i: int|
                0 <= i < n ==> {
                    &&& #[trigger] counts@[i] == contents_in(m.contents, (i + 1) as u64)
                    &&& views@[i] == views_in(m.contents, (i + 1) as u64)
                },
            forall|i: int|
                0 <= i < c ==> {
                    &&& (#[trigger] m.channels[i]).content_count == contents_in(
                        m.contents,
                        (i + 1) as u64,
                    )
                    &&& m.channels[i].total_views == views_in(m.contents, (i + 1) as u64)
                },
        decreases n - c,
    {
        if counts[c] != s.channels[c].content_count || views[c] != s.channels[c].total_views {
            assert(counts@[c as int] == contents_in(m.contents, (c + 1) as u64));
            assert(views@[c as int] == views_in(m.contents, (c + 1) as u64));
            assert(m.channels[c as int] == s.channels@[c as int]@);
            assert(!(m.channels[c as int].content_count == contents_in(m.contents, (c + 1) as u64)
                && m.channels[c as int].total_views == views_in(m.contents, (c + 1) as u64)));
            return false;
        }
        c = c + 1;
    }
    true
}

/// Whether the layout describes a state the platform can be in.
pub fn check_restorable(s: &PlatformSnapshot) -> (r: bool)
    ensures
        r == s.restorable(),
{
    check_sizes(s) && check_channels(s) && check_subscribers(s) && check_contents(s)
        && check_jobs(s) && check_tallies(s)
}

} // verus!
