use rsnano_node::bootstrap_weights::deserialize_bootstrap_weights;
use rsnano_node::numbers::Hash256;

fn record(buf: &mut Vec<u8>, hi: u128, lo: u128, weight: u128) {
    buf.extend_from_slice(&hi.to_be_bytes());
    buf.extend_from_slice(&lo.to_be_bytes());
    buf.extend_from_slice(&weight.to_be_bytes());
}

#[test]
fn reads_count_and_records() {
    let mut buf = Vec::new();
    buf.extend_from_slice(&207_494_994u128.to_be_bytes());
    record(&mut buf, 1, 2, 1000);
    record(&mut buf, 3, 4, 2000);
    let result = deserialize_bootstrap_weights(&buf);
    assert_eq!(result.max_blocks, 207_494_994);
    assert_eq!(result.weights.len(), 2);
    assert_eq!(result.weights.weight(&Hash256::new(1, 2)), 1000);
    assert_eq!(result.weights.weight(&Hash256::new(3, 4)), 2000);
    assert_eq!(result.weights.weight(&Hash256::new(5, 6)), 0);
}

#[test]
fn later_record_replaces_earlier_weight() {
    let mut buf = Vec::new();
    buf.extend_from_slice(&5u128.to_be_bytes());
    record(&mut buf, 1, 2, 1000);
    record(&mut buf, 3, 4, 2000);
    record(&mut buf, 1, 2, 7);
    let result = deserialize_bootstrap_weights(&buf);
    assert_eq!(result.weights.len(), 2);
    assert_eq!(result.weights.weight(&Hash256::new(1, 2)), 7);
    assert_eq!(result.weights.weight(&Hash256::new(3, 4)), 2000);
}

#[test]
fn incomplete_record_is_ignored() {
    let mut buf = Vec::new();
    buf.extend_from_slice(&9u128.to_be_bytes());
    record(&mut buf, 1, 2, 1000);
    buf.extend_from_slice(&[0xff; 47]);
    let result = deserialize_bootstrap_weights(&buf);
    assert_eq!(result.max_blocks, 9);
    assert_eq!(result.weights.len(), 1);
    assert_eq!(result.weights.weight(&Hash256::new(1, 2)), 1000);
}

#[test]
fn short_buffer_gives_nothing() {
    let result = deserialize_bootstrap_weights(&[1, 2, 3]);
    assert_eq!(result.max_blocks, 0);
    assert_eq!(result.weights.len(), 0);
}

#[test]
fn block_count_keeps_its_low_64_bits() {
    let count: u128 = (7u128 << 64) | 42;
    let result = deserialize_bootstrap_weights(&count.to_be_bytes());
    assert_eq!(result.max_blocks, 42);
    assert_eq!(result.weights.len(), 0);
}
