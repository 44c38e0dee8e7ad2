use zmq_patterns::weather::{
    format_update, parse_reading, random_update, weather_bind_endpoint, weather_client_endpoint,
    zip_filter, TemperatureTally, WeatherUpdate, AVERAGE_DIVISOR, SAMPLE_COUNT,
};

#[test]
fn update_text_is_three_numbers() {
    let u = WeatherUpdate { zipcode: 10001, temperature: -5, relhumidity: 42 };
    assert_eq!(format_update(&u), "10001 -5 42");
}

#[test]
fn client_reads_what_server_publishes() {
    let u = WeatherUpdate { zipcode: 99999, temperature: 134, relhumidity: 10 };
    let r = parse_reading(&format_update(&u)).unwrap();
    assert_eq!((r.zipcode, r.temperature, r.relhumidity), (99999, 134, 10));
}

#[test]
fn random_updates_stay_in_range() {
    let mut rng = rand::rng();
    for _ in 0..500 {
        let u = random_update(&mut rng);
        assert!(1 <= u.zipcode && u.zipcode < 100_000);
        assert!(-80 <= u.temperature && u.temperature < 135);
        assert!(10 <= u.relhumidity && u.relhumidity < 60);
        let r = parse_reading(&format_update(&u)).unwrap();
        assert_eq!(r.temperature, u.temperature as i64);
    }
}

#[test]
fn malformed_updates_are_refused() {
    assert!(parse_reading("1 2").is_none());
    assert!(parse_reading("1 2 x").is_none());
    assert!(parse_reading("1  2 3").is_none());
    assert!(parse_reading("").is_none());
    let r = parse_reading("1 2 3 4").unwrap();
    assert_eq!((r.zipcode, r.temperature, r.relhumidity), (1, 2, 3));
    assert!(parse_reading("1 2 3 four").is_none());
}

#[test]
fn zip_filter_defaults_to_10001() {
    let only_program = vec!["client".to_string()];
    assert_eq!(zip_filter(&only_program), "10001");
    let with_zip = vec!["client".to_string(), "77777".to_string()];
    assert_eq!(zip_filter(&with_zip), "77777");
}

#[test]
fn average_divides_by_twenty_toward_zero() {
    assert_eq!(SAMPLE_COUNT, 19);
    assert_eq!(AVERAGE_DIVISOR, 20);
    let mut t = TemperatureTally::new();
    let mut k = 0;
    while !t.is_complete() {
        assert!(t.record(10));
        k += 1;
    }
    assert_eq!(k, 19);
    assert_eq!(t.total, 190);
    assert_eq!(t.average(), 9);
    let neg = TemperatureTally { total: -190, count: 19 };
    assert_eq!(neg.average(), -9);
    assert_eq!(neg.average(), -190i64 / 20);
}

#[test]
fn overflowing_sum_is_refused() {
    let mut t = TemperatureTally { total: i64::MAX, count: 3 };
    assert!(!t.record(1));
    assert_eq!((t.total, t.count), (i64::MAX, 3));
    assert!(t.record(-1));
    assert_eq!((t.total, t.count), (i64::MAX - 1, 4));
}

#[test]
fn weather_endpoints() {
    assert_eq!(weather_bind_endpoint(), "tcp://*:5556");
    assert_eq!(weather_client_endpoint(), "tcp://localhost:5556");
}
