use wutengine::shader::{calculate_variant_id, hash_shader_keywords, hash_shader_source_id, CompiledShaderId, ShaderId};

#[test]
fn variant_ids_split_into_their_hashes() {
    let id = CompiledShaderId::from_hashes(0x1122_3344_5566_7788, 0x99aa_bbcc_ddee_ff00);
    assert_eq!(0x1122_3344_5566_7788_99aa_bbcc_ddee_ff00, id.0);
    assert_eq!(0x1122_3344_5566_7788, id.source_hash());
    assert_eq!(0x99aa_bbcc_ddee_ff00, id.keyword_hash());
}

#[test]
fn source_id_hash_is_xxh3_of_le_bytes() {
    assert_eq!(
        twox_hash::xxhash3_64::Hasher::oneshot(&5u64.to_le_bytes()),
        hash_shader_source_id(ShaderId(5))
    );
    assert_ne!(hash_shader_source_id(ShaderId(5)), hash_shader_source_id(ShaderId(6)));
}

#[test]
fn keyword_hash_is_sorted_and_joined() {
    let keywords = vec![("HAS_COLOR_MAP".to_string(), 1u64), ("DEBUG".to_string(), 20u64)];
    assert_eq!(
        twox_hash::xxhash3_64::Hasher::oneshot(b"DEBUG=20-HAS_COLOR_MAP=1"),
        hash_shader_keywords(&keywords)
    );
    let reversed = vec![("DEBUG".to_string(), 20u64), ("HAS_COLOR_MAP".to_string(), 1u64)];
    assert_eq!(hash_shader_keywords(&keywords), hash_shader_keywords(&reversed));
    assert_eq!(twox_hash::xxhash3_64::Hasher::oneshot(b""), hash_shader_keywords(&vec![]));
    assert_eq!(
        twox_hash::xxhash3_64::Hasher::oneshot(b"A=0"),
        hash_shader_keywords(&vec![("A".to_string(), 0)])
    );
}

#[test]
fn variant_id_combines_both_hashes() {
    let keywords = vec![("A".to_string(), 1u64)];
    let id = calculate_variant_id(ShaderId(9), &keywords);
    assert_eq!(hash_shader_source_id(ShaderId(9)), id.source_hash());
    assert_eq!(hash_shader_keywords(&keywords), id.keyword_hash());
}

#[test]
fn variant_id_text_and_order() {
    assert_eq!("00000000000000010000000000000002", CompiledShaderId::from_hashes(1, 2).to_string());
    assert_eq!(
        "112233445566778899aabbccddeeff00",
        CompiledShaderId::from_hashes(0x1122_3344_5566_7788, 0x99aa_bbcc_ddee_ff00).to_string()
    );
    assert!(CompiledShaderId::from_hashes(1, 0) > CompiledShaderId::from_hashes(0, u64::MAX));
    assert!(CompiledShaderId::from_hashes(3, 4) < CompiledShaderId::from_hashes(3, 5));
    assert_eq!(
        std::cmp::Ordering::Equal,
        CompiledShaderId::from_hashes(3, 4).cmp(&CompiledShaderId::from_hashes(3, 4))
    );
}
