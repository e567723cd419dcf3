//! Shard mapper behaviour: keys to shard targets.

use pgdog::key::Key;
use pgdog::mapper::{shard_for_keys, ShardingSchema};
use pgdog::route::Shard;

fn schema(num_shards: usize, null_shard: usize) -> ShardingSchema {
    ShardingSchema {
        column: "id".to_string(),
        num_shards,
        null_shard,
    }
}

fn constant(value: &str) -> Key {
    Key::Constant { value: value.to_string(), array: false }
}

fn array_constant(value: &str) -> Key {
    Key::Constant { value: value.to_string(), array: true }
}

#[test]
fn empty_keys_fan_out() {
    let keys: Vec<Key> = vec![];
    let params: Vec<String> = vec![];
    assert_eq!(shard_for_keys(&keys, &params, &schema(4, 0)), Shard::All);
}

#[test]
fn single_constant_routes_direct() {
    let keys = vec![constant("5")];
    let params: Vec<String> = vec![];
    assert_eq!(shard_for_keys(&keys, &params, &schema(3, 0)), Shard::Direct(2));
}

#[test]
fn equal_placements_collapse() {
    // 12 and 2 land on the same shard of 10: a single direct target.
    let keys = vec![constant("12"), constant("2")];
    let params: Vec<String> = vec![];
    assert_eq!(shard_for_keys(&keys, &params, &schema(10, 0)), Shard::Direct(2));
}

#[test]
fn array_literal_routes_to_subset() {
    let keys = vec![array_constant("{1, 2, 3}")];
    let params: Vec<String> = vec![];
    assert_eq!(
        shard_for_keys(&keys, &params, &schema(10, 0)),
        Shard::Multi(vec![1, 2, 3])
    );
}

#[test]
fn malformed_array_fans_out() {
    let keys = vec![array_constant("{1, x}")];
    let params: Vec<String> = vec![];
    assert_eq!(shard_for_keys(&keys, &params, &schema(10, 0)), Shard::All);
}

#[test]
fn malformed_value_fans_out_but_others_contribute() {
    let keys = vec![constant("not-a-number"), constant("7")];
    let params: Vec<String> = vec![];
    assert_eq!(shard_for_keys(&keys, &params, &schema(5, 0)), Shard::Direct(2));
}

#[test]
fn null_key_routes_to_null_shard() {
    let keys = vec![Key::Null];
    let params: Vec<String> = vec![];
    assert_eq!(shard_for_keys(&keys, &params, &schema(8, 3)), Shard::Direct(3));
}

#[test]
fn bound_parameter_is_resolved() {
    let keys = vec![Key::Parameter { pos: 0, array: false }];
    let params = vec!["7".to_string()];
    assert_eq!(shard_for_keys(&keys, &params, &schema(5, 0)), Shard::Direct(2));
}

#[test]
fn missing_parameter_fans_out() {
    let keys = vec![Key::Parameter { pos: 1, array: false }];
    let params = vec!["7".to_string()];
    assert_eq!(shard_for_keys(&keys, &params, &schema(5, 0)), Shard::All);
}

#[test]
fn array_parameter_hashes_each_element() {
    let keys = vec![Key::Parameter { pos: 0, array: true }];
    let params = vec!["{4, 7}".to_string()];
    assert_eq!(
        shard_for_keys(&keys, &params, &schema(5, 0)),
        Shard::Multi(vec![4, 2])
    );
}

#[test]
fn oversized_value_fans_out() {
    // Does not fit 64 bits: not a routing value.
    let keys = vec![constant("99999999999999999999")];
    let params: Vec<String> = vec![];
    assert_eq!(shard_for_keys(&keys, &params, &schema(4, 0)), Shard::All);
}

#[test]
fn largest_value_is_placed() {
    let keys = vec![constant("18446744073709551615")];
    let params: Vec<String> = vec![];
    // 2^64 - 1 = 1 (mod 7)
    assert_eq!(shard_for_keys(&keys, &params, &schema(7, 0)), Shard::Direct(1));
}
