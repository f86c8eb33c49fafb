use effective_encoding::random::generate_record;

#[test]
fn generated_record_has_expected_shape() {
    let bits = 123.25f64.to_bits();
    let p = generate_record(bits);
    assert!(5 <= p.name.len() && p.name.len() < 10);
    assert!(p.name.is_ascii());
    assert!(p.name.chars().all(|c| c.is_ascii_alphanumeric()));
    assert_eq!(p.price_bits, bits);
    assert_eq!(p.tags, vec!["benchmark".to_string(), "test".to_string()]);
}

#[test]
fn generated_dataset_matches_prices() {
    let prices: Vec<u64> = vec![1.5f64.to_bits(), 2.0f64.to_bits(), 3.25f64.to_bits()];
    let data = effective_encoding::random::generate_dataset(&prices);
    assert_eq!(data.len(), 3);
    for (p, bits) in data.iter().zip(prices.iter()) {
        assert_eq!(p.price_bits, *bits);
        assert!(5 <= p.name.len() && p.name.len() < 10);
        assert_eq!(p.tags.len(), 2);
    }
}

#[test]
fn generated_record_minimum_matches_name_length() {
    let p = generate_record(1.0f64.to_bits());
    let expected = 17 + p.name.len() as u128 + 9 + 4;
    assert_eq!(p.minimum_bytes(), expected);
}
