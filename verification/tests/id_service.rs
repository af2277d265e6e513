use filebox::id_service::UlidService;

const CROCKFORD: &str = "0123456789ABCDEFGHJKMNPQRSTVWXYZ";

#[test]
fn parses_the_time_of_a_known_ulid() {
    let service = UlidService::new();
    assert_eq!(service.parse("01ARZ3NDEKTSV4RRFFQ69G5FAV"), Some(1469922850259));
}

#[test]
fn parse_refuses_characters_outside_the_alphabet() {
    let service = UlidService::new();
    assert_eq!(service.parse("01arz3ndekTSV4RRFFQ69G5FAV"), None);
    assert_eq!(service.parse("01ARZ3NDEI"), None);
    assert_eq!(service.parse("01ARZ3ND-K"), None);
}

#[test]
fn generated_keys_read_back_their_time() {
    let mut service = UlidService::new();
    for t in [0i64, 1, 1469922850259, 1729448015982, (1i64 << 48) - 1] {
        let key = service.gen(t);
        assert_eq!(key.len(), 26);
        assert!(key.chars().all(|c| CROCKFORD.contains(c)));
        assert_eq!(service.parse(&key), Some(t));
    }
}

#[test]
fn times_before_the_epoch_and_past_48_bits_are_clamped_and_masked() {
    let mut service = UlidService::new();
    let early = service.gen(-5);
    assert_eq!(service.parse(&early), Some(0));
    let late = service.gen((1i64 << 48) + 7);
    assert_eq!(service.parse(&late), Some(7));
    assert_eq!(&service.gen(0)[..10], "0000000000");
}

#[test]
fn keys_made_now_carry_the_current_time() {
    let mut service = UlidService::new();
    let before = std::time::SystemTime::now().duration_since(std::time::UNIX_EPOCH).unwrap().as_millis() as i64;
    let key = service.gen_now();
    let after = std::time::SystemTime::now().duration_since(std::time::UNIX_EPOCH).unwrap().as_millis() as i64;
    let t = service.parse(&key).unwrap();
    assert!(before <= t && t <= after);
}

#[test]
fn keys_can_be_made_at_the_ends_of_the_date_range() {
    let mut service = UlidService::new();
    let first = service.gen(-8_334_601_228_800_000);
    assert_eq!(service.parse(&first), Some(0));
    let last = service.gen(8_210_266_876_799_999);
    assert_eq!(service.parse(&last), Some(8_210_266_876_799_999 % (1i64 << 48)));
}

#[test]
fn keys_sort_by_their_time() {
    let mut service = UlidService::new();
    let mut keys = Vec::new();
    for t in [0i64, 1, 31, 32, 1023, 1024, 1729448015982, (1i64 << 48) - 1] {
        keys.push(service.gen(t));
    }
    for i in 1..keys.len() {
        assert!(keys[i - 1] < keys[i]);
    }
}

#[test]
fn the_date_range_ends_where_chrono_ends() {
    assert!(chrono::DateTime::from_timestamp_millis(-8_334_601_228_800_000).is_some());
    assert!(chrono::DateTime::from_timestamp_millis(-8_334_601_228_800_001).is_none());
    assert!(chrono::DateTime::from_timestamp_millis(-8_334_601_315_200_000).is_none());
    assert!(chrono::DateTime::from_timestamp_millis(8_210_266_876_799_999).is_some());
    assert!(chrono::DateTime::from_timestamp_millis(8_210_266_876_800_000).is_none());
}
