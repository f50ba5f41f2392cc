use tts_bot::config::{ArrayOrSingle, KeyStore, PoolError, TTS};
use tts_bot::tts::rotate_until_accepted;

fn keys(v: &[&str]) -> Vec<String> {
    v.iter().map(|s| s.to_string()).collect()
}

#[test]
fn validate_rejects_empty_list() {
    let empty: ArrayOrSingle<String> = ArrayOrSingle::Multiple(Vec::new());
    assert!(empty.validate().is_err());
    let single = ArrayOrSingle::Single("k".to_string());
    assert!(single.validate().is_ok());
    let multiple = ArrayOrSingle::Multiple(keys(&["a", "b"]));
    assert!(multiple.validate().is_ok());
}

#[test]
fn into_vec_flattens_both_shapes() {
    let single = ArrayOrSingle::Single(5u32);
    assert_eq!(single.into_vec(), vec![5]);
    let multiple = ArrayOrSingle::Multiple(vec![1u32, 2, 3]);
    assert_eq!(multiple.into_vec(), vec![1, 2, 3]);
}

#[test]
fn new_pool_drops_duplicates() {
    let pool = KeyStore::new(keys(&["a", "b", "a", "c", "b"]));
    assert_eq!(pool.len(), 3);
}

#[test]
fn from_config_rejects_empty() {
    let empty: ArrayOrSingle<String> = ArrayOrSingle::Multiple(Vec::new());
    assert!(KeyStore::from_config(empty).is_err());
    let one = ArrayOrSingle::Single("k".to_string());
    assert_eq!(KeyStore::from_config(one).unwrap().len(), 1);
}

#[test]
fn get_one_returns_a_member() {
    let pool = KeyStore::new(keys(&["a", "b", "c"]));
    for _ in 0..20 {
        let k = pool.get_one().unwrap();
        assert!(k == "a" || k == "b" || k == "c");
    }
}

#[test]
fn get_one_fails_fast_on_empty_pool() {
    let pool = KeyStore::new(Vec::new());
    assert_eq!(pool.get_one(), Err(PoolError::Empty));
}

#[test]
fn remove_reports_remaining_count() {
    let mut pool = KeyStore::new(keys(&["a", "b", "c"]));
    assert_eq!(pool.remove(&"b".to_string()), Some(2));
    assert_eq!(pool.remove(&"b".to_string()), None);
    assert_eq!(pool.len(), 2);
}

#[test]
fn removing_last_credential_exhausts_pool() {
    let mut pool = KeyStore::new(keys(&["only"]));
    assert_eq!(pool.remove(&"only".to_string()), Some(0));
    assert_eq!(pool.get_one(), Err(PoolError::Empty));
}

#[test]
fn remove_key_classifies_outcomes() {
    let mut tts = TTS::new("https://endpoint".to_string(), KeyStore::new(keys(&["a", "b"])));
    assert_eq!(tts.remove_key(&"missing".to_string()), Err(PoolError::NotFound));
    assert_eq!(tts.remove_key(&"a".to_string()), Ok(()));
    assert_eq!(tts.remove_key(&"b".to_string()), Err(PoolError::Empty));
    assert_eq!(tts.ocp_apim_subscription_key(), Err(PoolError::Empty));
}

#[test]
fn rotation_succeeds_past_rejected_credentials() {
    // three of four credentials are rejected: the request must end on the
    // fourth, whichever order the picks came in.
    let mut pool = KeyStore::new(keys(&["a", "b", "c", "good"]));
    let rejected = keys(&["a", "b", "c"]);
    let picked = rotate_until_accepted(&mut pool, &rejected).unwrap();
    assert_eq!(picked, "good");
    assert!(pool.len() >= 1);
    assert!(pool.len() <= 4);
}

#[test]
fn rotation_exhausts_when_all_are_rejected() {
    // every pick is rejected: each rejection removes exactly one
    // credential, so the pool shrinks by its whole size before failing.
    let mut pool = KeyStore::new(keys(&["a", "b", "c"]));
    let rejected = keys(&["a", "b", "c"]);
    assert_eq!(rotate_until_accepted(&mut pool, &rejected), Err(PoolError::Empty));
    assert_eq!(pool.len(), 0);
    assert_eq!(pool.get_one(), Err(PoolError::Empty));
}
