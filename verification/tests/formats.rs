use effective_encoding::product::Product;
use effective_encoding::runner::{run_events, RecordEvent, RunConfig};

fn record(id: u64, name: &str, price: f64, in_stock: bool) -> Product {
    Product {
        id,
        name: name.to_string(),
        price_bits: price.to_bits(),
        in_stock,
        tags: vec!["x".to_string(), "y".to_string()],
    }
}

fn three_records() -> Vec<Product> {
    vec![
        record(1, "ab", 1.5, true),
        record(2, "abcde", 2.0, false),
        record(3, "a", 3.25, true),
    ]
}

fn json_value(p: &Product) -> serde_json::Value {
    let mut m = serde_json::Map::new();
    m.insert("id".to_string(), serde_json::Value::from(p.id));
    m.insert("name".to_string(), serde_json::Value::from(p.name.clone()));
    m.insert(
        "price".to_string(),
        serde_json::Value::from(f64::from_bits(p.price_bits)),
    );
    m.insert("in_stock".to_string(), serde_json::Value::from(p.in_stock));
    m.insert("tags".to_string(), serde_json::Value::from(p.tags.clone()));
    serde_json::Value::Object(m)
}

fn json_decoded_id(bytes: &[u8]) -> Option<u64> {
    let v: serde_json::Value = serde_json::from_slice(bytes).ok()?;
    v.get("id")?.as_u64()
}

#[test]
fn json_round_trip_preserves_id() {
    for p in three_records() {
        let bytes = serde_json::to_vec(&json_value(&p)).unwrap();
        assert_eq!(json_decoded_id(&bytes), Some(p.id));
    }
}

#[test]
fn json_size_is_at_least_the_floor() {
    for p in three_records() {
        let bytes = serde_json::to_vec(&json_value(&p)).unwrap();
        assert!(bytes.len() as u128 >= p.minimum_bytes());
    }
}

#[test]
fn json_encoding_is_deterministic() {
    let p = record(42, "abcde", 9.75, false);
    let first = serde_json::to_vec(&json_value(&p)).unwrap();
    let second = serde_json::to_vec(&json_value(&p)).unwrap();
    assert_eq!(first, second);
}

#[test]
fn run_with_real_json_encoding() {
    let data = three_records();
    let mut events = Vec::new();
    let mut expected_total: u128 = 0;
    for p in &data {
        let bytes = serde_json::to_vec(&json_value(p)).unwrap();
        expected_total += bytes.len() as u128;
        events.push(RecordEvent::EncodedChecked {
            len: bytes.len(),
            decoded_id: json_decoded_id(&bytes),
        });
    }
    let cfg = RunConfig { check_decode: true };
    let st = run_events(&data, &events, &cfg).ok().unwrap();
    assert_eq!(st.total_bytes, expected_total);
    assert!(st.total_bytes >= 65);
}

#[test]
fn cbor_round_trip_preserves_id() {
    for p in three_records() {
        let bytes = serde_cbor::to_vec(&json_value(&p)).unwrap();
        let decoded: serde_cbor::Value = serde_cbor::from_slice(&bytes).unwrap();
        let id = match decoded {
            serde_cbor::Value::Map(m) => {
                match m.get(&serde_cbor::Value::Text("id".to_string())) {
                    Some(serde_cbor::Value::Integer(i)) => Some(*i as u64),
                    _ => None,
                }
            },
            _ => None,
        };
        assert_eq!(id, Some(p.id));
    }
}

#[test]
fn cbor_size_is_at_least_the_floor() {
    for p in three_records() {
        let bytes = serde_cbor::to_vec(&json_value(&p)).unwrap();
        assert!(bytes.len() as u128 >= p.minimum_bytes());
    }
}

#[test]
fn ciborium_round_trip_preserves_id() {
    let p = record(7, "abc", 4.5, true);
    let mut bytes: Vec<u8> = Vec::new();
    ciborium::ser::into_writer(&json_value(&p), &mut bytes).unwrap();
    assert!(bytes.len() as u128 >= p.minimum_bytes());
    let decoded: ciborium::Value = ciborium::de::from_reader(bytes.as_slice()).unwrap();
    let mut id: Option<u64> = None;
    if let ciborium::Value::Map(entries) = decoded {
        for (k, v) in entries {
            if k == ciborium::Value::Text("id".to_string()) {
                id = v.as_integer().and_then(|i| u64::try_from(i).ok());
            }
        }
    }
    assert_eq!(id, Some(7));
}

#[test]
fn msgpack_round_trip_preserves_id() {
    let p = record(11, "abcd", 2.25, false);
    let bytes = rmp_serde::to_vec(&json_value(&p)).unwrap();
    let decoded: serde_json::Value = rmp_serde::from_slice(&bytes).unwrap();
    assert_eq!(decoded.get("id").and_then(|x| x.as_u64()), Some(11));
}

#[test]
fn msgpack_encoding_is_deterministic() {
    let p = record(11, "abcd", 2.25, false);
    let first = rmp_serde::to_vec(&json_value(&p)).unwrap();
    let second = rmp_serde::to_vec(&json_value(&p)).unwrap();
    assert_eq!(first, second);
}

#[test]
fn bincode_round_trip_preserves_id() {
    let config = bincode::config::standard();
    let item = (
        u64::MAX - 5,
        "ab".to_string(),
        1.5f64,
        true,
        vec!["x".to_string(), "y".to_string()],
    );
    let encoded = bincode::encode_to_vec(&item, config).unwrap();
    let (decoded, _): ((u64, String, f64, bool, Vec<String>), usize) =
        bincode::decode_from_slice(&encoded, config).unwrap();
    assert_eq!(decoded.0, item.0);
}

#[test]
fn bincode_encoding_is_deterministic() {
    let config = bincode::config::standard();
    let item = (1u64, "abcde".to_string(), 2.0f64, false);
    let first = bincode::encode_to_vec(&item, config).unwrap();
    let second = bincode::encode_to_vec(&item, config).unwrap();
    assert_eq!(first, second);
}
