use tab_shell::pool::{WebviewPool, POOL_SIZE};

#[test]
fn pool_claims_most_recent_first() {
    let mut pool = WebviewPool::new();
    assert_eq!(pool.size(), 0);
    assert_eq!(pool.missing(), POOL_SIZE);
    assert_eq!(pool.claim(), None);
    pool.add("pool-1".to_string());
    pool.add("pool-2".to_string());
    assert_eq!(pool.size(), 2);
    assert_eq!(pool.missing(), 0);
    assert_eq!(pool.claim(), Some("pool-2".to_string()));
    assert_eq!(pool.missing(), 1);
    assert_eq!(pool.claim(), Some("pool-1".to_string()));
    assert_eq!(pool.claim(), None);
}

#[test]
fn pool_over_target_needs_nothing() {
    let mut pool = WebviewPool::new();
    for i in 0..3 {
        pool.add(format!("pool-{}", i));
    }
    assert_eq!(pool.missing(), 0);
}
