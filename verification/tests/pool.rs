use swarm_engine::pool::{PoolError, SwarmIdPool};

#[test]
fn default_pool_hands_out_ids_in_rising_order() {
    let mut pool = SwarmIdPool::default();
    assert_eq!(pool.limit(), 20);
    assert_eq!(pool.available(), 20);
    for expected in 1..=20u32 {
        assert_eq!(pool.subscribers(expected), Some(0));
        assert_eq!(pool.get_id(), Some(expected));
        assert_eq!(pool.subscribers(expected), Some(1));
    }
    assert_eq!(pool.available(), 0);
}

#[test]
fn exhausted_pool_gives_none_and_stays_as_it_is() {
    let mut pool = SwarmIdPool::new(2);
    assert_eq!(pool.get_id(), Some(1));
    assert_eq!(pool.get_id(), Some(2));
    assert_eq!(pool.get_id(), None);
    assert_eq!(pool.get_id(), None);
    assert_eq!(pool.available(), 0);
    assert_eq!(pool.subscribers(1), Some(1));
    assert_eq!(pool.subscribers(2), Some(1));
}

#[test]
fn pool_without_ids_is_always_exhausted() {
    let mut pool = SwarmIdPool::new(0);
    assert_eq!(pool.limit(), 0);
    assert_eq!(pool.available(), 0);
    assert_eq!(pool.get_id(), None);
    assert_eq!(pool.subscribers(1), None);
    assert_eq!(pool.unit_inc_subs(1), Err(PoolError::UnknownId));
    assert!(!pool.is_in_use(1));
}

#[test]
fn subscribers_are_counted_up_and_down() {
    let mut pool = SwarmIdPool::new(3);
    assert_eq!(pool.get_id(), Some(1));
    assert_eq!(pool.unit_inc_subs(1), Ok(()));
    assert_eq!(pool.unit_inc_subs(1), Ok(()));
    assert_eq!(pool.subscribers(1), Some(3));
    pool.unit_dec_subs(1);
    assert_eq!(pool.subscribers(1), Some(2));
    assert_eq!(pool.available(), 2);
}

#[test]
fn id_returns_to_the_stock_only_with_its_last_subscriber() {
    let mut pool = SwarmIdPool::new(2);
    assert_eq!(pool.get_id(), Some(1));
    assert_eq!(pool.unit_inc_subs(1), Ok(()));
    assert_eq!(pool.get_id(), Some(2));
    pool.unit_dec_subs(1);
    assert_eq!(pool.available(), 0);
    assert_eq!(pool.get_id(), None);
    pool.unit_dec_subs(1);
    assert_eq!(pool.subscribers(1), Some(0));
    assert_eq!(pool.available(), 1);
    assert_eq!(pool.get_id(), Some(1));
    assert_eq!(pool.subscribers(1), Some(1));
}

#[test]
fn returned_ids_queue_behind_unused_ones_first_in_first_out() {
    let mut pool = SwarmIdPool::new(5);
    assert_eq!(pool.get_id(), Some(1));
    assert_eq!(pool.get_id(), Some(2));
    assert_eq!(pool.get_id(), Some(3));
    pool.unit_dec_subs(2);
    pool.unit_dec_subs(1);
    assert_eq!(pool.available(), 4);
    assert_eq!(pool.get_id(), Some(4));
    assert_eq!(pool.get_id(), Some(5));
    assert_eq!(pool.get_id(), Some(2));
    assert_eq!(pool.get_id(), Some(1));
    assert_eq!(pool.get_id(), None);
}

#[test]
fn ring_wraps_around_many_times() {
    let mut pool = SwarmIdPool::new(3);
    let mut expected = vec![1u32, 2, 3];
    for _ in 0..50 {
        let id = pool.get_id();
        assert_eq!(id, Some(expected[0]));
        let id = id.unwrap();
        expected.remove(0);
        pool.unit_dec_subs(id);
        expected.push(id);
        assert_eq!(pool.available(), 3);
    }
}

#[test]
fn unknown_ids_are_refused() {
    let mut pool = SwarmIdPool::new(4);
    assert_eq!(pool.unit_inc_subs(0), Err(PoolError::UnknownId));
    assert_eq!(pool.unit_inc_subs(5), Err(PoolError::UnknownId));
    assert!(!pool.is_in_use(0));
    assert!(!pool.is_in_use(5));
    assert!(!pool.is_in_use(u32::MAX));
    assert_eq!(pool.subscribers(0), None);
    assert_eq!(pool.subscribers(5), None);
    assert_eq!(pool.available(), 4);
}

#[test]
fn ids_in_stock_take_no_subscription() {
    let mut pool = SwarmIdPool::new(4);
    assert_eq!(pool.unit_inc_subs(2), Err(PoolError::Inactive));
    assert_eq!(pool.subscribers(2), Some(0));
    assert_eq!(pool.get_id(), Some(1));
    assert_eq!(pool.get_id(), Some(2));
    assert_eq!(pool.unit_inc_subs(2), Ok(()));
}

#[test]
fn only_ids_in_use_can_be_let_go() {
    let mut pool = SwarmIdPool::new(2);
    assert!(!pool.is_in_use(1));
    assert_eq!(pool.get_id(), Some(1));
    assert!(pool.is_in_use(1));
    assert!(!pool.is_in_use(2));
    pool.unit_dec_subs(1);
    assert!(!pool.is_in_use(1));
    assert_eq!(pool.subscribers(1), Some(0));
    assert_eq!(pool.available(), 2);
    // the id is in the stock once
    assert_eq!(pool.get_id(), Some(2));
    assert_eq!(pool.get_id(), Some(1));
    assert_eq!(pool.get_id(), None);
}
