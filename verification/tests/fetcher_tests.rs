use oracle_node::events::{decode_batch, FieldElement, SpotEntryEvent};
use oracle_node::fetcher::{FetcherState, BLOCKS_IN_1_HOUR};

fn word(lo: u128) -> FieldElement {
    FieldElement { hi: 0, lo }
}

fn payload(timestamp: u64, price: u128, pair: u128) -> Vec<FieldElement> {
    vec![word(timestamp as u128), word(0), word(0), word(price), word(pair)]
}

#[test]
fn initial_window_reaches_one_hour_back() {
    let state = FetcherState::init(1000);
    assert_eq!(state.to_block, 1000);
    assert_eq!(state.from_block, 1000 - BLOCKS_IN_1_HOUR);
    assert_eq!(state.continuation_token, None);
    assert!(!state.needs_poll());
}

#[test]
fn watermark_advances_only_after_final_page() {
    // A fake paginated source: two pages carrying a continuation token,
    // then one page without. The watermark must not move until the last
    // page is processed.
    let pair = word(42);
    let pages: Vec<(Vec<Vec<FieldElement>>, Option<String>)> = vec![
        (vec![payload(1, 100, 42)], Some("page-2".to_string())),
        (vec![payload(2, 200, 42)], Some("page-3".to_string())),
        (vec![payload(3, 300, 42)], None),
    ];

    let mut state = FetcherState::init(1000);
    let from_before = state.from_block;
    let mut received: Vec<SpotEntryEvent> = Vec::new();

    for (i, (raw, token)) in pages.into_iter().enumerate() {
        let mut batch = decode_batch(&raw, pair);
        received.append(&mut batch);
        let last_page = token.is_none();
        state.apply_page(token);
        if last_page {
            assert_eq!(state.from_block, state.to_block);
        } else {
            assert_eq!(state.from_block, from_before, "page {} moved the watermark", i);
        }
    }

    assert_eq!(received.len(), 3);
    assert!(state.needs_poll());
    assert_eq!(state.continuation_token, None);
}

#[test]
fn polled_height_refreshes_upper_end_only() {
    let mut state = FetcherState::init(1000);
    state.apply_page(None);
    assert_eq!(state.from_block, 1000);
    assert!(state.needs_poll());

    state.apply_height(1200);
    assert_eq!(state.to_block, 1200);
    assert_eq!(state.from_block, 1000);
    assert_eq!(state.continuation_token, None);
    assert!(!state.needs_poll());
}
