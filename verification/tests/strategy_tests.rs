use inventory_scanner::account::AccountId;
use inventory_scanner::outcome::{FailureReason, OwnershipRecord, ProbeOutcome};
use inventory_scanner::strategy::{ListedInstance, ProbeReply, ProbeStrategy};

fn account(number: i64) -> AccountId {
    AccountId::new(number).unwrap()
}

fn listed(id: u64, name: &str, instance_id: u64) -> ListedInstance {
    ListedInstance { id, name: name.to_string(), instance_id }
}

#[test]
fn select_follows_the_account_status() {
    assert_eq!(ProbeStrategy::select(false), ProbeStrategy::Unrestricted);
    assert_eq!(ProbeStrategy::select(true), ProbeStrategy::Restricted);
}

#[test]
fn request_url_of_the_listing_endpoint() {
    assert_eq!(
        ProbeStrategy::Unrestricted.request_url(account(156), 1028606),
        "https://inventory.roblox.com/v1/users/156/items/Asset/1028606"
    );
}

#[test]
fn request_url_of_the_has_asset_endpoint() {
    assert_eq!(
        ProbeStrategy::Restricted.request_url(account(156), 1028606),
        "https://api.roblox.com/ownership/hasasset?userId=156&assetId=1028606"
    );
}

#[test]
fn request_url_writes_extreme_numbers_in_full() {
    assert_eq!(
        ProbeStrategy::Unrestricted.request_url(account(i64::MAX), u64::MAX),
        "https://inventory.roblox.com/v1/users/9223372036854775807/items/Asset/18446744073709551615"
    );
    assert_eq!(
        ProbeStrategy::Restricted.request_url(account(1), 0),
        "https://api.roblox.com/ownership/hasasset?userId=1&assetId=0"
    );
}

#[test]
fn restricted_true_yields_exactly_one_record() {
    let outcomes =
        ProbeStrategy::Restricted.interpret(42, "Answer", &ProbeReply::HasAsset("true".to_string()));
    assert_eq!(
        outcomes,
        vec![ProbeOutcome::Owned(OwnershipRecord {
            item_id: 42,
            instance_id: None,
            display_name: "Answer".to_string(),
        })]
    );
}

#[test]
fn restricted_anything_but_true_is_not_owned() {
    for body in ["false", "", "True", "TRUE", "true ", " true", "true\n", "1", "yes", "truetrue"] {
        let outcomes =
            ProbeStrategy::Restricted.interpret(42, "Answer", &ProbeReply::HasAsset(body.to_string()));
        assert_eq!(outcomes, vec![ProbeOutcome::NotOwned], "body {:?}", body);
    }
}

#[test]
fn unrestricted_empty_listing_is_not_owned() {
    let outcomes = ProbeStrategy::Unrestricted.interpret(42, "Answer", &ProbeReply::Listing(vec![]));
    assert_eq!(outcomes, vec![ProbeOutcome::NotOwned]);
}

#[test]
fn unrestricted_listing_yields_one_record_per_instance() {
    let reply = ProbeReply::Listing(vec![
        listed(42, "Answer", 1001),
        listed(42, "Answer", 1002),
        listed(42, "Answer", 1003),
    ]);
    let outcomes = ProbeStrategy::Unrestricted.interpret(42, "Catalog Name", &reply);
    assert_eq!(
        outcomes,
        vec![
            ProbeOutcome::Owned(OwnershipRecord {
                item_id: 42,
                instance_id: Some(1001),
                display_name: "Answer".to_string(),
            }),
            ProbeOutcome::Owned(OwnershipRecord {
                item_id: 42,
                instance_id: Some(1002),
                display_name: "Answer".to_string(),
            }),
            ProbeOutcome::Owned(OwnershipRecord {
                item_id: 42,
                instance_id: Some(1003),
                display_name: "Answer".to_string(),
            }),
        ]
    );
}

#[test]
fn unrestricted_record_takes_item_and_name_from_the_listing() {
    let reply = ProbeReply::Listing(vec![listed(77, "Listed Name", 5)]);
    let outcomes = ProbeStrategy::Unrestricted.interpret(42, "Catalog Name", &reply);
    assert_eq!(
        outcomes,
        vec![ProbeOutcome::Owned(OwnershipRecord {
            item_id: 77,
            instance_id: Some(5),
            display_name: "Listed Name".to_string(),
        })]
    );
}

#[test]
fn unreachable_is_a_transient_failure_for_both() {
    for strategy in [ProbeStrategy::Unrestricted, ProbeStrategy::Restricted] {
        assert_eq!(
            strategy.interpret(1, "x", &ProbeReply::Unreachable),
            vec![ProbeOutcome::TransientFailure(FailureReason::Unreachable)]
        );
        assert_eq!(strategy.failure_for(&ProbeReply::Unreachable), Some(FailureReason::Unreachable));
    }
}

#[test]
fn malformed_is_a_transient_failure_for_both() {
    for strategy in [ProbeStrategy::Unrestricted, ProbeStrategy::Restricted] {
        assert_eq!(
            strategy.interpret(1, "x", &ProbeReply::Malformed),
            vec![ProbeOutcome::TransientFailure(FailureReason::Malformed)]
        );
        assert_eq!(strategy.failure_for(&ProbeReply::Malformed), Some(FailureReason::Malformed));
    }
}

#[test]
fn a_reply_of_the_other_endpoint_is_malformed() {
    assert_eq!(
        ProbeStrategy::Unrestricted.interpret(1, "x", &ProbeReply::HasAsset("true".to_string())),
        vec![ProbeOutcome::TransientFailure(FailureReason::Malformed)]
    );
    assert_eq!(
        ProbeStrategy::Restricted.interpret(1, "x", &ProbeReply::Listing(vec![listed(1, "x", 2)])),
        vec![ProbeOutcome::TransientFailure(FailureReason::Malformed)]
    );
}

#[test]
fn failure_for_is_none_for_an_answer() {
    assert_eq!(
        ProbeStrategy::Restricted.failure_for(&ProbeReply::HasAsset("false".to_string())),
        None
    );
    assert_eq!(ProbeStrategy::Unrestricted.failure_for(&ProbeReply::Listing(vec![])), None);
}
