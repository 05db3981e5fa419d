use creator_platform::{Address, AddressKind, CopyrightStatus, CreatorPlatformContract, JobStatus, JobType, LicenseType};

fn address(n: u128) -> Address {
    Address { kind: AddressKind::Account, key_high: 0, key_low: n }
}

fn text(s: &str) -> Vec<u8> {
    s.as_bytes().to_vec()
}

#[test]
fn test_create_channel() {
    let mut platform = CreatorPlatformContract::new();
    let owner = address(1);

    let channel_id = platform
        .create_channel(
            owner,
            text("My Music Channel"),
            text("Original music and covers"),
            text("music"),
            owner,
            0,
        )
        .unwrap();

    assert_eq!(channel_id, 1);

    let channel = platform.get_channel(channel_id).unwrap();
    assert_eq!(channel.name, text("My Music Channel"));
    assert_eq!(channel.subscriber_count, 0);
}

#[test]
fn test_subscribe_unsubscribe() {
    let mut platform = CreatorPlatformContract::new();
    let owner = address(1);
    let channel_id = platform
        .create_channel(owner, text("Test"), text("Desc"), text("gaming"), owner, 0)
        .unwrap();

    let user = address(2);
    let subs = platform.subscribe(user, channel_id).unwrap();
    assert_eq!(subs, 1);

    let is_sub = platform.is_subscribed(user, channel_id);
    assert!(is_sub);

    let subs_after = platform.unsubscribe(user, channel_id).unwrap();
    assert_eq!(subs_after, 0);
}

#[test]
fn test_register_content_and_view() {
    let mut platform = CreatorPlatformContract::new();
    let owner = address(1);
    let channel_id = platform
        .create_channel(owner, text("Art"), text("Art channel"), text("art"), owner, 0)
        .unwrap();

    let content_id = platform
        .register_content(
            owner,
            channel_id,
            text("My First Song"),
            text("Original composition"),
            text("Qm1234567890abcdef"),
            text("audio"),
            LicenseType::AllRightsReserved,
            500, // 5% royalty
            0,
        )
        .unwrap();

    assert_eq!(content_id, 1);

    let viewer = address(2);
    let total_views = platform.record_view(viewer, content_id).unwrap();
    assert_eq!(total_views, 1);

    let stats = platform.get_viewer_stats(content_id, 0).unwrap();
    assert_eq!(stats.total_views, 1);
    assert_eq!(stats.unique_viewers, 1);
}

#[test]
fn test_create_and_update_job() {
    let mut platform = CreatorPlatformContract::new();
    let owner = address(1);
    let channel_id = platform
        .create_channel(owner, text("Game"), text("Gaming"), text("gaming"), owner, 0)
        .unwrap();

    let now: u64 = 0;
    let job_id = platform
        .create_job(
            owner,
            channel_id,
            text("Saturday Livestream"),
            text("Weekly gaming stream"),
            JobType::LiveStream,
            now + 3600,
            now + 7200,
            0i128,
            now,
        )
        .unwrap();

    assert_eq!(job_id, 1);

    platform.update_job_status(owner, job_id, JobStatus::InProgress, now).unwrap();
    let job = platform.get_job(job_id).unwrap();
    assert_eq!(job.status, JobStatus::InProgress);
}

#[test]
fn test_copyright_dispute_flow() {
    let mut platform = CreatorPlatformContract::new();
    let owner = address(1);
    let channel_id = platform
        .create_channel(owner, text("Vlog"), text("My vlogs"), text("vlog"), owner, 0)
        .unwrap();

    let content_id = platform
        .register_content(
            owner,
            channel_id,
            text("Vlog #1"),
            text("Day in my life"),
            text("QmABC123"),
            text("video"),
            LicenseType::CreativeCommons,
            0,
            0,
        )
        .unwrap();

    let claimer = address(2);
    platform.dispute_content(claimer, content_id).unwrap();

    let content = platform.get_content(content_id).unwrap();
    assert_eq!(content.copyright_status, CopyrightStatus::Disputed);

    platform.resolve_dispute(content_id, true).unwrap();

    let content_after = platform.get_content(content_id).unwrap();
    assert_eq!(content_after.copyright_status, CopyrightStatus::Registered);
}
