use cache_sim::block::{CacheBlock, BLOCK_SIZE};
use cache_sim::input::{parse_address, parse_policy, InputError};
use cache_sim::policy::{get_tags_and_index, MappingPolicy};

#[test]
fn direct_decode_splits_by_capacity() {
    assert_eq!(get_tags_and_index(13, MappingPolicy::Direct), (3, 1));
    assert_eq!(get_tags_and_index(0, MappingPolicy::Direct), (0, 0));
    assert_eq!(get_tags_and_index(7, MappingPolicy::Direct), (1, 3));
}

#[test]
fn set_associative_decode_splits_by_set_count() {
    assert_eq!(get_tags_and_index(13, MappingPolicy::SetAssociative), (6, 1));
    assert_eq!(get_tags_and_index(4, MappingPolicy::SetAssociative), (2, 0));
}

#[test]
fn associative_decode_keeps_address_as_tag() {
    assert_eq!(get_tags_and_index(13, MappingPolicy::Associative), (13, 0));
    assert_eq!(
        get_tags_and_index(usize::MAX, MappingPolicy::Associative),
        (usize::MAX, 0)
    );
}

#[test]
fn decode_is_deterministic() {
    for policy in [
        MappingPolicy::Direct,
        MappingPolicy::SetAssociative,
        MappingPolicy::Associative,
    ] {
        for address in [0usize, 1, 5, 1023, usize::MAX] {
            assert_eq!(
                get_tags_and_index(address, policy),
                get_tags_and_index(address, policy)
            );
        }
    }
}

#[test]
fn decode_largest_address_direct() {
    assert_eq!(
        get_tags_and_index(usize::MAX, MappingPolicy::Direct),
        (usize::MAX / 4, 3)
    );
}

#[test]
fn new_block_is_empty() {
    let b = CacheBlock::new();
    assert!(!b.valid);
    assert_eq!(b.tag, 0);
    assert_eq!(b.data, [0u8; BLOCK_SIZE]);
}

#[test]
fn filled_block_is_valid() {
    let b = CacheBlock::filled(9);
    assert!(b.valid);
    assert_eq!(b.tag, 9);
    assert_eq!(b.data, [0u8; BLOCK_SIZE]);
}

#[test]
fn policy_choices() {
    assert_eq!(parse_policy("1"), Ok(MappingPolicy::Direct));
    assert_eq!(parse_policy("2"), Ok(MappingPolicy::SetAssociative));
    assert_eq!(parse_policy("3"), Ok(MappingPolicy::Associative));
}

#[test]
fn invalid_policy_choice_is_refused() {
    assert_eq!(parse_policy("9"), Err(InputError::InvalidPolicy));
    assert_eq!(parse_policy(""), Err(InputError::InvalidPolicy));
    assert_eq!(parse_policy("12"), Err(InputError::InvalidPolicy));
    assert_eq!(parse_policy("x"), Err(InputError::InvalidPolicy));
}

#[test]
fn addresses_parse_as_decimal() {
    assert_eq!(parse_address("42"), Ok(42));
    assert_eq!(parse_address("0"), Ok(0));
    assert_eq!(parse_address("+7"), Ok(7));
    assert_eq!(parse_address("007"), Ok(7));
    assert_eq!(parse_address(&usize::MAX.to_string()), Ok(usize::MAX));
}

#[test]
fn malformed_addresses_are_refused() {
    for bad in ["", "+", "-1", "1a", " 3", "++1", "1.5"] {
        assert_eq!(parse_address(bad), Err(InputError::MalformedAddress));
    }
    let too_big = format!("{}0", usize::MAX);
    assert_eq!(parse_address(&too_big), Err(InputError::MalformedAddress));
}
