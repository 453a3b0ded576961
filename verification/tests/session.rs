use word_of_wisdom::{Difficulty, Secret, SessionStore, POW};

// Nonces whose work hash for the all-zero secret starts with one, two and
// three zero bytes.
const ONE_ZERO: u64 = 491;
const TWO_ZEROS: u64 = 106_167;
const THREE_ZEROS: u64 = 2_337_635;

const KNOWN: Secret = Secret { value: 0 };

#[test]
fn a_new_store_has_no_sessions() {
    let store = SessionStore::new();
    assert_eq!(store.secret_of(0), None);
    assert_eq!(store.secret_of(u128::MAX), None);
}

#[test]
fn an_issued_secret_is_bound_to_its_token() {
    let mut store = SessionStore::new();
    let secret = store.issue(11);
    assert_eq!(store.secret_of(11), Some(secret));
    assert_eq!(store.secret_of(12), None);
}

#[test]
fn issuing_again_replaces_the_secret() {
    let mut store = SessionStore::new();
    let first = store.issue(11);
    let second = store.issue(11);
    assert_ne!(first, second);
    assert_eq!(store.secret_of(11), Some(second));
}

#[test]
fn binding_replaces_what_was_bound() {
    let mut store = SessionStore::new();
    store.bind(5, Secret { value: 1 });
    store.bind(5, Secret { value: 2 });
    store.bind(6, Secret { value: 3 });
    assert_eq!(store.secret_of(5), Some(Secret { value: 2 }));
    assert_eq!(store.secret_of(6), Some(Secret { value: 3 }));
}

#[test]
fn a_secret_is_spent_by_the_proof_that_is_accepted() {
    let mut store = SessionStore::new();
    store.bind(7, KNOWN);
    assert!(store.check_and_consume(7, THREE_ZEROS, Difficulty::III));
    assert_eq!(store.secret_of(7), None);
    assert!(!store.check_and_consume(7, THREE_ZEROS, Difficulty::III));
    assert!(!store.check_and_consume(7, THREE_ZEROS, Difficulty::I));
    assert_eq!(store.secret_of(7), None);
}

#[test]
fn a_secret_that_was_searched_for_is_spent_once() {
    let mut store = SessionStore::new();
    let secret = store.issue(70);
    let mut engine = POW::new(Difficulty::II);
    let mut found = None;
    while found.is_none() {
        found = engine.find_nonce(&secret, 100_000);
    }
    let nonce = found.unwrap();
    assert!(store.check_and_consume(70, nonce, Difficulty::II));
    assert!(!store.check_and_consume(70, nonce, Difficulty::II));
}

#[test]
fn an_unknown_token_is_rejected_and_nothing_changes() {
    let mut store = SessionStore::new();
    store.bind(7, KNOWN);
    for nonce in [0, ONE_ZERO, TWO_ZEROS, THREE_ZEROS, u64::MAX] {
        assert!(!store.check_and_consume(8, nonce, Difficulty::I));
        assert_eq!(store.secret_of(8), None);
        assert_eq!(store.secret_of(7), Some(KNOWN));
    }
    let mut empty = SessionStore::new();
    assert!(!empty.check_and_consume(7, THREE_ZEROS, Difficulty::III));
    assert_eq!(empty.secret_of(7), None);
}

#[test]
fn a_wrong_nonce_leaves_the_session_open() {
    let mut store = SessionStore::new();
    store.bind(7, KNOWN);
    assert!(!store.check_and_consume(7, 0, Difficulty::III));
    assert_eq!(store.secret_of(7), Some(KNOWN));
    assert!(!store.check_and_consume(7, TWO_ZEROS, Difficulty::III));
    assert_eq!(store.secret_of(7), Some(KNOWN));
    assert!(store.check_and_consume(7, THREE_ZEROS, Difficulty::III));
    assert_eq!(store.secret_of(7), None);
}

#[test]
fn the_difficulty_decides_which_nonce_is_enough() {
    let mut store = SessionStore::new();
    store.bind(1, KNOWN);
    assert!(!store.check_and_consume(1, ONE_ZERO, Difficulty::II));
    assert!(store.check_and_consume(1, ONE_ZERO, Difficulty::I));
    store.bind(2, KNOWN);
    assert!(!store.check_and_consume(2, THREE_ZEROS, Difficulty::IV));
    assert!(store.check_and_consume(2, TWO_ZEROS, Difficulty::II));
    // The work hash of 5 147 195 739 starts with four zero bytes.
    store.bind(3, KNOWN);
    assert!(store.check_and_consume(3, 5_147_195_739, Difficulty::IV));
    assert_eq!(store.secret_of(3), None);
}

#[test]
fn two_tokens_get_secrets_of_their_own() {
    let mut store = SessionStore::new();
    let first = store.issue(100);
    let second = store.issue(200);
    assert_ne!(first, second);
    assert_eq!(store.secret_of(100), Some(first));
    assert_eq!(store.secret_of(200), Some(second));
}

#[test]
fn resolving_one_token_leaves_the_other_as_it_is() {
    let mut store = SessionStore::new();
    store.bind(100, KNOWN);
    store.bind(200, Secret { value: u128::MAX });
    assert!(store.check_and_consume(100, THREE_ZEROS, Difficulty::III));
    assert_eq!(store.secret_of(200), Some(Secret { value: u128::MAX }));
    // 6 423 935 proves work at the third level for the all-one secret.
    assert!(!store.check_and_consume(200, THREE_ZEROS, Difficulty::III));
    assert!(store.check_and_consume(200, 6_423_935, Difficulty::III));
    assert_eq!(store.secret_of(100), None);
    assert_eq!(store.secret_of(200), None);
}

#[test]
fn a_token_can_be_challenged_again_after_its_secret_is_spent() {
    let mut store = SessionStore::new();
    store.bind(7, KNOWN);
    assert!(store.check_and_consume(7, THREE_ZEROS, Difficulty::III));
    store.bind(7, KNOWN);
    assert!(store.check_and_consume(7, THREE_ZEROS, Difficulty::III));
}
