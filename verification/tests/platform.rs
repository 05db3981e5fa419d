use creator_platform::{
    Address, AddressKind, ChannelStatus, ContractError, CopyrightStatus, CreatorPlatformContract,
    JobStatus, JobType, LicenseType, RoyaltyTransfer, ViewerStats,
};

fn account(n: u128) -> Address {
    Address { kind: AddressKind::Account, key_high: 7, key_low: n }
}

fn bytes(s: &str) -> Vec<u8> {
    s.as_bytes().to_vec()
}

/// A platform with one channel (id 1) owned by `account(1)`, royalties to
/// `account(9)`, and one registered content (id 1) at 500 bps.
fn platform_with_content() -> CreatorPlatformContract {
    let mut p = CreatorPlatformContract::new();
    let owner = account(1);
    assert_eq!(
        p.create_channel(owner, bytes("Chan"), bytes("D"), bytes("music"), account(9), 10),
        Ok(1)
    );
    assert_eq!(
        p.register_content(
            owner,
            1,
            bytes("Song"),
            bytes("Desc"),
            bytes("QmHash"),
            bytes("audio"),
            LicenseType::OpenSource,
            500,
            20,
        ),
        Ok(1)
    );
    p
}

#[test]
fn channel_fields_after_creation() {
    let mut p = CreatorPlatformContract::new();
    let owner = account(1);
    let id = p.create_channel(owner, bytes("N"), bytes("D"), bytes("C"), account(2), 42).unwrap();
    assert_eq!(id, 1);
    let c = p.get_channel(1).unwrap();
    assert_eq!(c.id, 1);
    assert_eq!(c.owner, owner);
    assert_eq!(c.description, bytes("D"));
    assert_eq!(c.category, bytes("C"));
    assert_eq!(c.created_at, 42);
    assert_eq!(c.status, ChannelStatus::Active);
    assert_eq!(c.royalty_address, account(2));
    assert_eq!(c.total_views, 0);
    assert_eq!(c.content_count, 0);
    assert_eq!(p.get_channel_by_owner(owner), Ok(1));
    assert_eq!(p.get_channel_count(), 1);
}

#[test]
fn channel_ids_are_sequential() {
    let mut p = CreatorPlatformContract::new();
    for n in 1..=3u128 {
        let a = account(n);
        assert_eq!(p.create_channel(a, bytes("x"), bytes("y"), bytes("z"), a, 0), Ok(n as u64));
    }
    assert_eq!(p.get_channel_count(), 3);
    assert_eq!(p.get_channel_by_owner(account(2)), Ok(2));
}

#[test]
fn second_channel_for_same_owner_is_refused() {
    let mut p = CreatorPlatformContract::new();
    let owner = account(1);
    p.create_channel(owner, bytes("a"), bytes("b"), bytes("c"), owner, 0).unwrap();
    assert_eq!(
        p.create_channel(owner, bytes("d"), bytes("e"), bytes("f"), owner, 0),
        Err(ContractError::AlreadyExists)
    );
    assert_eq!(p.get_channel_count(), 1);
}

#[test]
fn missing_records_are_not_found() {
    let p = CreatorPlatformContract::new();
    assert_eq!(p.get_channel(0).err(), Some(ContractError::NotFound));
    assert_eq!(p.get_channel(1).err(), Some(ContractError::NotFound));
    assert_eq!(p.get_channel_by_owner(account(1)), Err(ContractError::NotFound));
    assert_eq!(p.get_content(1).err(), Some(ContractError::NotFound));
    assert_eq!(p.get_job(1).err(), Some(ContractError::NotFound));
    assert_eq!(p.get_viewer_stats(1, 0), Err(ContractError::NotFound));
    assert_eq!(p.get_channel_views(1), Err(ContractError::NotFound));
    assert_eq!(p.get_subscriber_count(1), Err(ContractError::NotFound));
    assert_eq!(p.verify_content_hash(1, &bytes("h")), Err(ContractError::NotFound));
    assert_eq!(p.get_job_count(), 0);
    assert_eq!(p.get_channel_count(), 0);
    assert_eq!(p.get_content_count(), 0);
}

#[test]
fn update_channel_by_owner_only() {
    let mut p = CreatorPlatformContract::new();
    let owner = account(1);
    p.create_channel(owner, bytes("a"), bytes("b"), bytes("c"), owner, 0).unwrap();
    assert_eq!(
        p.update_channel(account(2), 1, bytes("x"), bytes("y"), bytes("z")),
        Err(ContractError::Unauthorized)
    );
    assert_eq!(
        p.update_channel(owner, 2, bytes("x"), bytes("y"), bytes("z")),
        Err(ContractError::NotFound)
    );
    assert_eq!(p.get_channel(1).unwrap().name, bytes("a"));
    assert_eq!(p.update_channel(owner, 1, bytes("x"), bytes("y"), bytes("z")), Ok(()));
    let c = p.get_channel(1).unwrap();
    assert_eq!(c.name, bytes("x"));
    assert_eq!(c.description, bytes("y"));
    assert_eq!(c.category, bytes("z"));
}

#[test]
fn subscriptions_are_counted() {
    let mut p = CreatorPlatformContract::new();
    let owner = account(1);
    p.create_channel(owner, bytes("a"), bytes("b"), bytes("c"), owner, 0).unwrap();
    assert_eq!(p.subscribe(account(2), 1), Ok(1));
    assert_eq!(p.subscribe(account(3), 1), Ok(2));
    assert_eq!(p.subscribe(account(2), 1), Err(ContractError::AlreadyExists));
    assert_eq!(p.get_subscriber_count(1), Ok(2));
    assert_eq!(p.get_channel(1).unwrap().subscriber_count, 2);
    assert_eq!(p.unsubscribe(account(2), 1), Ok(1));
    assert!(!p.is_subscribed(account(2), 1));
    assert!(p.is_subscribed(account(3), 1));
    assert_eq!(p.unsubscribe(account(2), 1), Err(ContractError::NotFound));
    assert_eq!(p.get_subscriber_count(1), Ok(1));
}

#[test]
fn subscribing_to_missing_channel_fails() {
    let mut p = CreatorPlatformContract::new();
    assert_eq!(p.subscribe(account(2), 5), Err(ContractError::NotFound));
    assert_eq!(p.unsubscribe(account(2), 5), Err(ContractError::NotFound));
    assert!(!p.is_subscribed(account(2), 5));
}

#[test]
fn unsubscribe_restores_previous_state() {
    let mut p = CreatorPlatformContract::new();
    let owner = account(1);
    p.create_channel(owner, bytes("a"), bytes("b"), bytes("c"), owner, 0).unwrap();
    p.subscribe(account(3), 1).unwrap();
    let before = p.get_subscriber_count(1).unwrap();
    p.subscribe(account(2), 1).unwrap();
    assert_eq!(p.unsubscribe(account(2), 1), Ok(before));
    assert!(!p.is_subscribed(account(2), 1));
    assert!(p.is_subscribed(account(3), 1));
}

#[test]
fn register_content_checks() {
    let mut p = CreatorPlatformContract::new();
    let owner = account(1);
    p.create_channel(owner, bytes("a"), bytes("b"), bytes("c"), owner, 0).unwrap();
    let reg = |p: &mut CreatorPlatformContract, who: Address, ch: u64, bps: u32| {
        p.register_content(who, ch, bytes("t"), bytes("d"), bytes("h"), bytes("v"), LicenseType::CommercialAllowed, bps, 0)
    };
    assert_eq!(reg(&mut p, owner, 1, 10_001), Err(ContractError::InvalidInput));
    assert_eq!(reg(&mut p, owner, 2, 100), Err(ContractError::NotFound));
    assert_eq!(reg(&mut p, account(2), 1, 100), Err(ContractError::Unauthorized));
    assert_eq!(p.get_content_count(), 0);
    assert_eq!(reg(&mut p, owner, 1, 10_000), Ok(1));
    assert_eq!(reg(&mut p, owner, 1, 0), Ok(2));
    assert_eq!(p.get_content_count(), 2);
    assert_eq!(p.get_channel(1).unwrap().content_count, 2);
    let c = p.get_content(2).unwrap();
    assert_eq!(c.id, 2);
    assert_eq!(c.channel_id, 1);
    assert_eq!(c.copyright_status, CopyrightStatus::Registered);
    assert_eq!(c.license, LicenseType::CommercialAllowed);
    assert_eq!(c.view_count, 0);
}

#[test]
fn content_hash_verification() {
    let mut p = platform_with_content();
    assert_eq!(p.verify_content_hash(1, &bytes("QmHash")), Ok(true));
    assert_eq!(p.verify_content_hash(1, &bytes("QmHasX")), Ok(false));
    assert_eq!(p.verify_content_hash(1, &bytes("QmHash2")), Ok(false));
    p.dispute_content(account(5), 1).unwrap();
    assert_eq!(p.verify_content_hash(1, &bytes("QmHash")), Ok(false));
}

#[test]
fn dispute_rules() {
    let mut p = platform_with_content();
    assert_eq!(p.resolve_dispute(1, true), Err(ContractError::InvalidInput));
    assert_eq!(p.dispute_content(account(5), 2), Err(ContractError::NotFound));
    assert_eq!(p.dispute_content(account(5), 1), Ok(()));
    assert_eq!(p.dispute_content(account(6), 1), Err(ContractError::InvalidInput));
    assert_eq!(p.resolve_dispute(1, false), Ok(()));
    assert_eq!(p.get_content(1).unwrap().copyright_status, CopyrightStatus::Revoked);
    // revoked is final
    assert_eq!(p.dispute_content(account(5), 1), Err(ContractError::InvalidInput));
    assert_eq!(p.resolve_dispute(1, true), Err(ContractError::InvalidInput));
    assert_eq!(p.record_view(account(4), 1), Err(ContractError::ContentDisputed));
    assert_eq!(
        p.pay_royalty(account(3), 1, account(100), 10_000),
        Err(ContractError::ContentDisputed)
    );
}

#[test]
fn royalty_payment_goes_to_channel_royalty_address() {
    let p = platform_with_content();
    let t = p.pay_royalty(account(3), 1, account(100), 10_000).unwrap();
    assert_eq!(
        t,
        RoyaltyTransfer { token: account(100), from: account(3), to: account(9), amount: 10_000 }
    );
    assert_eq!(p.pay_royalty(account(3), 1, account(100), 1_999).unwrap().amount, 1_999);
    assert_eq!(p.pay_royalty(account(3), 1, account(100), 0).unwrap().amount, 0);
    assert_eq!(
        p.pay_royalty(account(3), 1, account(100), 1_000_000),
        Ok(RoyaltyTransfer { token: account(100), from: account(3), to: account(9), amount: 1_000_000 })
    );
    assert_eq!(p.pay_royalty(account(3), 2, account(100), 1), Err(ContractError::NotFound));
}

#[test]
fn royalty_refused_while_disputed() {
    let mut p = platform_with_content();
    p.dispute_content(account(5), 1).unwrap();
    assert_eq!(
        p.pay_royalty(account(3), 1, account(100), 10_000),
        Err(ContractError::ContentDisputed)
    );
    p.resolve_dispute(1, true).unwrap();
    assert_eq!(p.pay_royalty(account(3), 1, account(100), 10_000).unwrap().amount, 10_000);
}

#[test]
fn views_and_unique_viewers() {
    let mut p = platform_with_content();
    assert_eq!(p.record_view(account(20), 1), Ok(1));
    assert_eq!(p.record_view(account(20), 1), Ok(2));
    assert_eq!(p.record_view(account(21), 1), Ok(3));
    assert_eq!(
        p.get_viewer_stats(1, 77),
        Ok(ViewerStats { content_id: 1, total_views: 3, unique_viewers: 2, last_viewed_at: 77 })
    );
    assert_eq!(p.get_channel_views(1), Ok(3));
    assert_eq!(p.get_content(1).unwrap().view_count, 3);
    assert_eq!(p.record_view(account(20), 2), Err(ContractError::NotFound));
}

#[test]
fn disputed_content_can_still_be_viewed() {
    let mut p = platform_with_content();
    p.dispute_content(account(5), 1).unwrap();
    assert_eq!(p.record_view(account(20), 1), Ok(1));
}

#[test]
fn channel_views_sum_over_its_content() {
    let mut p = platform_with_content();
    let owner = account(1);
    p.register_content(owner, 1, bytes("b"), bytes("d"), bytes("h2"), bytes("v"), LicenseType::OpenSource, 0, 0)
        .unwrap();
    p.record_view(account(20), 1).unwrap();
    p.record_view(account(20), 2).unwrap();
    p.record_view(account(20), 2).unwrap();
    assert_eq!(p.get_channel_views(1), Ok(3));
}

#[test]
fn job_creation_checks() {
    let mut p = CreatorPlatformContract::new();
    let owner = account(1);
    p.create_channel(owner, bytes("a"), bytes("b"), bytes("c"), owner, 0).unwrap();
    let mk = |p: &mut CreatorPlatformContract, who: Address, ch: u64, s: u64, d: u64| {
        p.create_job(who, ch, bytes("t"), bytes("d"), JobType::Collaboration, s, d, 5, 3)
    };
    assert_eq!(mk(&mut p, owner, 2, 1, 2), Err(ContractError::NotFound));
    assert_eq!(mk(&mut p, account(2), 1, 1, 2), Err(ContractError::Unauthorized));
    assert_eq!(mk(&mut p, owner, 1, 2, 2), Err(ContractError::InvalidInput));
    assert_eq!(mk(&mut p, owner, 1, 3, 2), Err(ContractError::InvalidInput));
    assert_eq!(p.get_job_count(), 0);
    assert_eq!(mk(&mut p, owner, 1, 1, 2), Ok(1));
    assert_eq!(mk(&mut p, owner, 1, 1, 2), Ok(2));
    assert_eq!(p.get_job_count(), 2);
    let j = p.get_job(2).unwrap();
    assert_eq!(j.status, JobStatus::Pending);
    assert_eq!(j.created_at, 3);
    assert_eq!(j.updated_at, 3);
    assert_eq!(j.reward_xlm, 5);
    assert_eq!(j.job_type, JobType::Collaboration);
}

fn platform_with_job() -> CreatorPlatformContract {
    let mut p = CreatorPlatformContract::new();
    let owner = account(1);
    p.create_channel(owner, bytes("a"), bytes("b"), bytes("c"), owner, 0).unwrap();
    p.create_job(owner, 1, bytes("t"), bytes("d"), JobType::Maintenance, 10, 20, 0, 0).unwrap();
    p
}

#[test]
fn job_life_cycle() {
    let owner = account(1);
    let mut p = platform_with_job();
    assert_eq!(p.update_job_status(account(2), 1, JobStatus::InProgress, 1), Err(ContractError::Unauthorized));
    assert_eq!(p.update_job_status(owner, 2, JobStatus::InProgress, 1), Err(ContractError::NotFound));
    assert_eq!(p.update_job_status(owner, 1, JobStatus::Completed, 1), Err(ContractError::InvalidInput));
    assert_eq!(p.update_job_status(owner, 1, JobStatus::Pending, 1), Err(ContractError::InvalidInput));
    assert_eq!(p.update_job_status(owner, 1, JobStatus::InProgress, 5), Ok(()));
    assert_eq!(p.get_job(1).unwrap().updated_at, 5);
    assert_eq!(p.update_job_status(owner, 1, JobStatus::Failed, 6), Ok(()));
    // failed is final
    assert_eq!(p.update_job_status(owner, 1, JobStatus::InProgress, 7), Err(ContractError::InvalidInput));
    assert_eq!(p.cancel_job(owner, 1, 7), Err(ContractError::InvalidInput));
    assert_eq!(p.get_job(1).unwrap().status, JobStatus::Failed);
}

#[test]
fn job_completion_is_final() {
    let owner = account(1);
    let mut p = platform_with_job();
    p.update_job_status(owner, 1, JobStatus::InProgress, 1).unwrap();
    p.update_job_status(owner, 1, JobStatus::Completed, 2).unwrap();
    assert_eq!(p.cancel_job(owner, 1, 3), Err(ContractError::InvalidInput));
    assert_eq!(p.update_job_status(owner, 1, JobStatus::Cancelled, 3), Err(ContractError::InvalidInput));
    assert_eq!(p.get_job(1).unwrap().status, JobStatus::Completed);
    assert_eq!(p.get_job(1).unwrap().updated_at, 2);
}

#[test]
fn cancel_job_rules() {
    let owner = account(1);
    let mut p = platform_with_job();
    assert_eq!(p.cancel_job(account(2), 1, 1), Err(ContractError::Unauthorized));
    assert_eq!(p.cancel_job(owner, 3, 1), Err(ContractError::NotFound));
    assert_eq!(p.cancel_job(owner, 1, 4), Ok(()));
    let j = p.get_job(1).unwrap();
    assert_eq!(j.status, JobStatus::Cancelled);
    assert_eq!(j.updated_at, 4);
    assert_eq!(p.cancel_job(owner, 1, 5), Err(ContractError::InvalidInput));
}

#[test]
fn cancel_job_in_progress() {
    let owner = account(1);
    let mut p = platform_with_job();
    p.update_job_status(owner, 1, JobStatus::InProgress, 1).unwrap();
    assert_eq!(p.cancel_job(owner, 1, 2), Ok(()));
    assert_eq!(p.get_job(1).unwrap().status, JobStatus::Cancelled);
}

#[test]
fn addresses_differ_by_kind() {
    let mut p = CreatorPlatformContract::new();
    let a = Address { kind: AddressKind::Account, key_high: 1, key_low: 1 };
    let c = Address { kind: AddressKind::Contract, key_high: 1, key_low: 1 };
    assert_eq!(p.create_channel(a, bytes("a"), bytes("b"), bytes("c"), a, 0), Ok(1));
    assert_eq!(p.create_channel(c, bytes("a"), bytes("b"), bytes("c"), c, 0), Ok(2));
}
