use creator_platform::{
    Address, AddressKind, Channel, ChannelStatus, CreatorPlatformContract, LicenseType,
    PlatformSnapshot,
};

fn who(n: u128) -> Address {
    Address { kind: AddressKind::Contract, key_high: n, key_low: 0 }
}

fn b(s: &str) -> Vec<u8> {
    s.as_bytes().to_vec()
}

fn busy_platform() -> CreatorPlatformContract {
    let mut p = CreatorPlatformContract::new();
    p.create_channel(who(1), b("one"), b("d"), b("c"), who(1), 1).unwrap();
    p.create_channel(who(2), b("two"), b("d"), b("c"), who(2), 2).unwrap();
    p.subscribe(who(3), 2).unwrap();
    p.register_content(who(2), 2, b("t"), b("d"), b("h"), b("v"), LicenseType::OpenSource, 100, 3)
        .unwrap();
    p.record_view(who(6), 1).unwrap();
    p.dispute_content(who(4), 1).unwrap();
    p
}

fn channel(id: u64, owner: Address, subscribers: u64) -> Channel {
    Channel {
        id,
        owner,
        name: b("n"),
        description: b("d"),
        category: b("c"),
        subscriber_count: subscribers,
        total_views: 0,
        content_count: 0,
        created_at: 0,
        status: ChannelStatus::Active,
        royalty_address: owner,
    }
}

fn empty_snapshot() -> PlatformSnapshot {
    PlatformSnapshot {
        channels: vec![],
        subscribers: vec![],
        contents: vec![],
        viewers: vec![],
        ownership_claims: vec![],
        jobs: vec![],
    }
}

#[test]
fn snapshot_round_trip_keeps_state() {
    let p = busy_platform();
    let restored = CreatorPlatformContract::from_snapshot(p.into_snapshot()).unwrap();
    assert_eq!(restored.get_channel_count(), 2);
    assert_eq!(restored.get_content_count(), 1);
    assert!(restored.is_subscribed(who(3), 2));
    assert_eq!(restored.get_subscriber_count(2), Ok(1));
    assert_eq!(restored.get_channel_views(2), Ok(1));
    assert_eq!(restored.get_channel(1).unwrap().name, b("one"));
    assert_eq!(restored.get_viewer_stats(1, 0).unwrap().unique_viewers, 1);
}

#[test]
fn empty_snapshot_is_restorable() {
    let p = CreatorPlatformContract::from_snapshot(empty_snapshot()).unwrap();
    assert_eq!(p.get_channel_count(), 0);
}

#[test]
fn snapshot_with_wrong_subscriber_count_is_refused() {
    let mut s = empty_snapshot();
    s.channels.push(channel(1, who(1), 2));
    s.subscribers.push(vec![who(5)]);
    assert!(CreatorPlatformContract::from_snapshot(s).is_none());
}

#[test]
fn snapshot_with_repeated_subscriber_is_refused() {
    let mut s = empty_snapshot();
    s.channels.push(channel(1, who(1), 2));
    s.subscribers.push(vec![who(5), who(5)]);
    assert!(CreatorPlatformContract::from_snapshot(s).is_none());
}

#[test]
fn snapshot_with_two_channels_of_one_owner_is_refused() {
    let mut s = empty_snapshot();
    s.channels.push(channel(1, who(1), 0));
    s.channels.push(channel(2, who(1), 0));
    s.subscribers.push(vec![]);
    s.subscribers.push(vec![]);
    assert!(CreatorPlatformContract::from_snapshot(s).is_none());
}

#[test]
fn snapshot_with_misnumbered_channel_is_refused() {
    let mut s = empty_snapshot();
    s.channels.push(channel(2, who(1), 0));
    s.subscribers.push(vec![]);
    assert!(CreatorPlatformContract::from_snapshot(s).is_none());
}

#[test]
fn snapshot_with_wrong_view_tally_is_refused() {
    let mut s = busy_platform().into_snapshot();
    s.channels[1].total_views = 5;
    assert!(CreatorPlatformContract::from_snapshot(s).is_none());
}

#[test]
fn snapshot_with_missing_claim_is_refused() {
    let mut s = busy_platform().into_snapshot();
    s.ownership_claims[0] = None;
    assert!(CreatorPlatformContract::from_snapshot(s).is_none());
}

#[test]
fn snapshot_with_mismatched_lengths_is_refused() {
    let mut s = busy_platform().into_snapshot();
    s.viewers.push(vec![]);
    assert!(CreatorPlatformContract::from_snapshot(s).is_none());
}

#[test]
fn snapshot_with_repeated_viewer_is_refused() {
    let mut s = busy_platform().into_snapshot();
    let v = s.viewers[0][0];
    s.viewers[0].push(v);
    s.contents[0].view_count = 5;
    assert!(CreatorPlatformContract::from_snapshot(s).is_none());
}

#[test]
fn snapshot_with_resolved_content_is_refused() {
    let mut s = busy_platform().into_snapshot();
    s.contents[0].copyright_status = creator_platform::CopyrightStatus::Resolved;
    s.ownership_claims[0] = None;
    assert!(CreatorPlatformContract::from_snapshot(s).is_none());
}
