use creator_platform::{
    Address, AddressKind, ContractError, CopyrightStatus, CreatorPlatformContract, JobStatus,
    JobType, LicenseType,
};

fn acct(n: u128) -> Address {
    Address { kind: AddressKind::Account, key_high: n, key_low: n }
}

fn s(x: &str) -> Vec<u8> {
    x.as_bytes().to_vec()
}

fn platform(bps: u32) -> CreatorPlatformContract {
    let mut p = CreatorPlatformContract::new();
    p.create_channel(acct(1), s("c"), s("d"), s("k"), acct(2), 0).unwrap();
    p.register_content(acct(1), 1, s("t"), s("d"), s("hash"), s("video"), LicenseType::AllRightsReserved, bps, 0)
        .unwrap();
    p
}

#[test]
fn royalty_carries_whole_amount_to_channel() {
    for bps in [0u32, 1, 500, 10_000] {
        let p = platform(bps);
        for amount in [0i128, 1, 1_000_000, 123_456_789, i128::MAX] {
            let t = p.pay_royalty(acct(3), 1, acct(4), amount).unwrap();
            assert_eq!(t.amount, amount);
            assert_eq!(t.to, acct(2));
            assert_eq!(t.from, acct(3));
            assert_eq!(t.token, acct(4));
        }
    }
}

#[test]
fn unique_viewers_never_exceed_total_views() {
    let mut p = platform(0);
    for viewer in [10u128, 10, 11, 10, 11] {
        p.record_view(acct(viewer), 1).unwrap();
        let stats = p.get_viewer_stats(1, 0).unwrap();
        assert!(stats.unique_viewers <= stats.total_views);
    }
    let stats = p.get_viewer_stats(1, 0).unwrap();
    assert_eq!(stats.total_views, 5);
    assert_eq!(stats.unique_viewers, 2);
}

#[test]
fn failed_operations_leave_the_platform_unchanged() {
    let mut p = platform(100);
    assert_eq!(p.subscribe(acct(5), 9), Err(ContractError::NotFound));
    assert_eq!(
        p.register_content(acct(7), 1, s("t"), s("d"), s("h"), s("v"), LicenseType::OpenSource, 1, 0),
        Err(ContractError::Unauthorized)
    );
    assert_eq!(p.resolve_dispute(1, false), Err(ContractError::InvalidInput));
    assert_eq!(
        p.create_job(acct(1), 1, s("t"), s("d"), JobType::Other, 5, 5, 0, 0),
        Err(ContractError::InvalidInput)
    );
    assert_eq!(p.get_content_count(), 1);
    assert_eq!(p.get_job_count(), 0);
    assert_eq!(p.get_channel(1).unwrap().content_count, 1);
    assert_eq!(p.get_content(1).unwrap().copyright_status, CopyrightStatus::Registered);
    assert_eq!(p.get_subscriber_count(1), Ok(0));
}

#[test]
fn upheld_dispute_restores_verification() {
    let mut p = platform(100);
    assert_eq!(p.verify_content_hash(1, &s("hash")), Ok(true));
    p.dispute_content(acct(8), 1).unwrap();
    assert_eq!(p.verify_content_hash(1, &s("hash")), Ok(false));
    p.resolve_dispute(1, true).unwrap();
    assert_eq!(p.verify_content_hash(1, &s("hash")), Ok(true));
    assert_eq!(p.dispute_content(acct(8), 1), Ok(()));
}

#[test]
fn cancelled_job_stays_cancelled() {
    let mut p = platform(0);
    p.create_job(acct(1), 1, s("t"), s("d"), JobType::VideoUpload, 1, 2, 0, 0).unwrap();
    p.cancel_job(acct(1), 1, 1).unwrap();
    for status in [JobStatus::Pending, JobStatus::InProgress, JobStatus::Completed, JobStatus::Failed, JobStatus::Cancelled] {
        assert_eq!(p.update_job_status(acct(1), 1, status, 2), Err(ContractError::InvalidInput));
    }
    assert_eq!(p.get_job(1).unwrap().status, JobStatus::Cancelled);
}

#[test]
fn returning_viewer_is_not_counted_again() {
    let mut p = platform(0);
    p.record_view(acct(10), 1).unwrap();
    p.dispute_content(acct(8), 1).unwrap();
    p.resolve_dispute(1, true).unwrap();
    p.record_view(acct(10), 1).unwrap();
    let stats = p.get_viewer_stats(1, 0).unwrap();
    assert_eq!(stats.total_views, 2);
    assert_eq!(stats.unique_viewers, 1);
    assert_eq!(p.get_channel_views(1), Ok(2));
}

#[test]
fn owner_lookup_survives_later_calls() {
    let mut p = platform(0);
    p.create_channel(acct(5), s("o"), s("d"), s("k"), acct(5), 0).unwrap();
    p.subscribe(acct(6), 1).unwrap();
    p.update_channel(acct(1), 1, s("x"), s("y"), s("z")).unwrap();
    p.record_view(acct(6), 1).unwrap();
    assert_eq!(p.get_channel_by_owner(acct(1)), Ok(1));
    assert_eq!(p.get_channel_by_owner(acct(5)), Ok(2));
    assert_eq!(p.get_channel(1).unwrap().owner, acct(1));
    assert_eq!(p.get_channel_by_owner(acct(6)), Err(ContractError::NotFound));
}
