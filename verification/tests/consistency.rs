use iota_logic::consistency::{
    consistent_range, Checkpointed, ConsistentIndexCursor, ConsistentNamedCursor,
};

#[test]
fn without_a_checkpoint_the_whole_range_is_used() {
    assert_eq!(consistent_range((10, 20), None), Some((10, 20)));
}

#[test]
fn a_checkpoint_inside_the_range_bounds_it() {
    assert_eq!(consistent_range((10, 20), Some(10)), Some((10, 10)));
    assert_eq!(consistent_range((10, 20), Some(15)), Some((10, 15)));
    assert_eq!(consistent_range((10, 20), Some(20)), Some((10, 20)));
}

#[test]
fn a_checkpoint_outside_the_range_is_refused() {
    assert_eq!(consistent_range((10, 20), Some(9)), None);
    assert_eq!(consistent_range((10, 20), Some(21)), None);
}

#[test]
fn cursors_carry_their_checkpoint() {
    let a = ConsistentIndexCursor { ix: 3, c: 44 };
    let b = ConsistentNamedCursor { name: "field".to_string(), c: 45 };
    assert_eq!(a.checkpoint_viewed_at(), 44);
    assert_eq!(b.checkpoint_viewed_at(), 45);
}
