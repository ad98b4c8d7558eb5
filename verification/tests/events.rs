use appchain_anchor::anchor_event_histories::AnchorEventHistories;
use appchain_anchor::types::AnchorEvent;

fn locked_event(tag: u128) -> AnchorEvent {
    AnchorEvent::NearFungibleTokenLocked {
        symbol: "USDC".to_string(),
        sender_id_in_near: "alice.near".to_string(),
        receiver_id_in_appchain: "0xab".to_string(),
        amount: tag,
    }
}

fn amount_of(event: &AnchorEvent) -> u128 {
    match event {
        AnchorEvent::NearFungibleTokenLocked { amount, .. } => *amount,
        AnchorEvent::NearFungibleTokenUnlocked { amount, .. } => *amount,
        AnchorEvent::FailedToUnlockNearFungibleToken { amount, .. } => *amount,
    }
}

#[test]
fn append_assigns_increasing_indices() {
    let mut log = AnchorEventHistories::new();
    for tag in 0..5u128 {
        log.append(locked_event(tag));
    }
    assert_eq!(log.start_index, 0);
    assert_eq!(log.end_index, 5);
    let all = log.range(0, 5);
    assert_eq!(all.len(), 5);
    for (offset, record) in all.iter().enumerate() {
        assert_eq!(record.index, offset as u64);
        assert_eq!(amount_of(&record.event), offset as u128);
    }
}

#[test]
fn range_clamps_to_the_window() {
    let mut log = AnchorEventHistories::new();
    for tag in 0..4u128 {
        log.append(locked_event(tag));
    }
    let middle = log.range(1, 3);
    assert_eq!(middle.len(), 2);
    assert_eq!(middle[0].index, 1);
    assert_eq!(middle[1].index, 2);
    let all = log.range(0, 100);
    assert_eq!(all.len(), 4);
    assert!(log.range(3, 1).is_empty());
    assert!(log.range(10, 20).is_empty());
}

#[test]
fn advance_start_discards_without_renumbering() {
    let mut log = AnchorEventHistories::new();
    for tag in 0..4u128 {
        log.append(locked_event(tag));
    }
    log.advance_start(2);
    assert_eq!(log.start_index, 2);
    assert_eq!(log.end_index, 4);
    let kept = log.range(0, 100);
    assert_eq!(kept.len(), 2);
    assert_eq!(kept[0].index, 2);
    assert_eq!(amount_of(&kept[0].event), 2);
    assert_eq!(kept[1].index, 3);
    // Appending continues the numbering after compaction.
    log.append(locked_event(9));
    assert_eq!(log.end_index, 5);
    assert_eq!(log.range(4, 5)[0].index, 4);
}

#[test]
fn advance_start_backwards_or_past_end_is_clamped() {
    let mut log = AnchorEventHistories::new();
    for tag in 0..3u128 {
        log.append(locked_event(tag));
    }
    log.advance_start(2);
    log.advance_start(0);
    assert_eq!(log.start_index, 2);
    log.advance_start(100);
    assert_eq!(log.start_index, 3);
    assert_eq!(log.end_index, 3);
    assert!(log.range(0, 100).is_empty());
}
