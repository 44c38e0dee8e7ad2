use zmq_patterns::decimal::{format_i64, format_u64, parse_i64, parse_usize};
use zmq_patterns::endpoint::tcp_endpoint;
use zmq_patterns::text::{find_last, split};

#[test]
fn split_matches_std_split() {
    let cases = ["", ":", "a", "a:b", "a::b", ":a:", "NAMESERVER:10.0.0.1", "x:y:z:w", "é:ü"];
    for c in cases.iter() {
        let ours = split(c, ':');
        let theirs: Vec<String> = c.split(':').map(|p| p.to_string()).collect();
        assert_eq!(ours, theirs, "splitting {:?}", c);
    }
    assert_eq!(split("1 2 3", ' '), vec!["1", "2", "3"]);
}

#[test]
fn find_last_finds_last_separator() {
    assert_eq!(find_last("192.168.1.20", '.'), Some(9));
    assert_eq!(find_last("localhost", '.'), None);
    assert_eq!(find_last("", '.'), None);
    assert_eq!(find_last("a.", '.'), Some(1));
}

#[test]
fn format_matches_display() {
    let values: [i64; 9] = [0, 7, 10, 99, 100, -1, -80, i64::MAX, i64::MIN];
    for v in values.iter() {
        assert_eq!(format_i64(*v), v.to_string());
    }
    let unsigned: [u64; 5] = [0, 9, 5570, 65535, u64::MAX];
    for v in unsigned.iter() {
        assert_eq!(format_u64(*v), v.to_string());
    }
}

#[test]
fn parse_i64_matches_std() {
    let cases = [
        "0", "42", "-42", "+42", "-0", "007", "", "-", "+", "+-1", "-+1", " 1", "1 ", "1a",
        "9223372036854775807", "9223372036854775808", "-9223372036854775808",
        "-9223372036854775809", "99999999999999999999999999", "١٢",
    ];
    for c in cases.iter() {
        assert_eq!(parse_i64(c), c.parse::<i64>().ok(), "parsing {:?}", c);
    }
}

#[test]
fn parse_usize_matches_std() {
    let cases = ["0", "4", "+4", "-4", "-0", "", "+", "18446744073709551615", "18446744073709551616", "3x"];
    for c in cases.iter() {
        assert_eq!(parse_usize(c), c.parse::<usize>().ok(), "parsing {:?}", c);
    }
}

#[test]
fn format_then_parse_gives_back_the_number() {
    let values: [i64; 6] = [0, 1, -1, 123456, i64::MAX, i64::MIN];
    for v in values.iter() {
        assert_eq!(parse_i64(&format_i64(*v)), Some(*v));
    }
}

#[test]
fn endpoint_text() {
    assert_eq!(tcp_endpoint("localhost", 5570), "tcp://localhost:5570");
    assert_eq!(tcp_endpoint("*", 5556), "tcp://*:5556");
    assert_eq!(tcp_endpoint("10.0.0.3", 9004), "tcp://10.0.0.3:9004");
}
