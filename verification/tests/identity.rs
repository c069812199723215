use dmlog::identity::{keys_to_text, AccountKey, BlockHash};

const TOKEN_PROGRAM: [u8; 32] = [
    6, 221, 246, 225, 215, 101, 161, 147, 217, 203, 225, 70, 206, 235, 121, 172, 28, 180, 133,
    237, 95, 91, 55, 145, 58, 140, 245, 133, 126, 255, 0, 169,
];

#[test]
fn zero_key_prints_as_ones() {
    let key = AccountKey::new([0u8; 32]);
    assert_eq!(key.to_text(), "11111111111111111111111111111111");
}

#[test]
fn known_program_key_prints_in_base58() {
    let key = AccountKey::new(TOKEN_PROGRAM);
    assert_eq!(key.to_text(), "TokenkegQfeZyiNwAJbNbGKPFXCWuBvf9Ss623VQ5DA");
}

#[test]
fn zero_hash_prints_as_ones() {
    let hash = BlockHash::new([0u8; 32]);
    assert_eq!(hash.to_text(), "11111111111111111111111111111111");
}

#[test]
fn hash_prints_in_base58() {
    let hash = BlockHash::new([9u8; 32]);
    assert_eq!(hash.to_text(), "cGfHiC6Kgg3FpFZvgwGcswsCRtp4aBP2fzuXRQPizuN");
    let counting: Vec<u8> = (0u8..32).collect();
    let mut bytes = [0u8; 32];
    bytes.copy_from_slice(&counting);
    assert_eq!(BlockHash::new(bytes).to_text(), "1thX6LZfHDZZKUs92febYZhYRcXddmzfzF2NvTkPNE");
}

#[test]
fn keys_print_in_order_with_duplicates() {
    let keys = [AccountKey::new([1u8; 32]), AccountKey::new([2u8; 32]), AccountKey::new([1u8; 32])];
    let texts = keys_to_text(&keys);
    assert_eq!(
        texts,
        vec![
            "4vJ9JU1bJJE96FWSJKvHsmmFADCg4gpZQff4P3bkLKi".to_string(),
            "8qbHbw2BbbTHBW1sbeqakYXVKRQM8Ne7pLK7m6CVfeR".to_string(),
            "4vJ9JU1bJJE96FWSJKvHsmmFADCg4gpZQff4P3bkLKi".to_string(),
        ]
    );
    assert!(keys_to_text(&[]).is_empty());
}
