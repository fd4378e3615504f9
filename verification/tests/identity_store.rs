use p2p_chat::identity::identity_seed;

#[test]
fn stored_seed_is_used_as_it_is() {
    let stored = [5u8; 32];
    let id = identity_seed(Some(&stored[..]));
    assert_eq!(id.seed, stored);
    assert!(!id.is_new);
}

#[test]
fn missing_seed_is_drawn_fresh_and_marked_new() {
    let first = identity_seed(None);
    let second = identity_seed(None);
    assert!(first.is_new);
    assert!(second.is_new);
    assert_ne!(first.seed, second.seed);
}
