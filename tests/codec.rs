use sudoku_snark::{hex_vec, ProofHexed, VkHexed};

#[test]
fn hex_of_bytes() {
    assert_eq!(hex_vec(&vec![]), "");
    assert_eq!(hex_vec(&vec![0x00, 0x0f, 0xa0, 0xff, 0x12]), "000fa0ff12");
}

#[test]
fn vk_view_keeps_every_input_commitment() {
    let one = vec![1u8];
    let h = VkHexed::from_parts(&one, &one, &one, &one, &vec![vec![2u8]]);
    assert_eq!(h.abc, vec!["02".to_string()]);
    let h = VkHexed::from_parts(&one, &one, &one, &one, &vec![vec![2u8], vec![3u8], vec![4u8]]);
    assert_eq!(h.abc, vec!["02".to_string(), "03".to_string(), "04".to_string()]);
}

#[test]
fn vk_view_fields() {
    let h = VkHexed::from_parts(&vec![0xab], &vec![0x01, 0x02], &vec![], &vec![0xff], &vec![vec![0x10], vec![0x20]]);
    assert_eq!(h.alpha1, "ab");
    assert_eq!(h.beta2, "0102");
    assert_eq!(h.gamma2, "");
    assert_eq!(h.delta2, "ff");
    assert_eq!(h.abc, vec!["10".to_string(), "20".to_string()]);
}

#[test]
fn proof_view_fields() {
    let p = ProofHexed::from_parts(&vec![1], &vec![0xbe, 0xef], &vec![0x0a]);
    assert_eq!((p.a.as_str(), p.b.as_str(), p.c.as_str()), ("01", "beef", "0a"));
}
