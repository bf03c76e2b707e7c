use dynhost::{parse_ipv4, ipv4_to_string, Ipv4};

#[test]
fn parse_accepts_plain_addresses() {
    assert_eq!(parse_ipv4("0.0.0.0"), Some(Ipv4::new(0, 0, 0, 0)));
    assert_eq!(parse_ipv4("255.255.255.255"), Some(Ipv4::new(255, 255, 255, 255)));
    assert_eq!(parse_ipv4("198.51.100.7"), Some(Ipv4::new(198, 51, 100, 7)));
    assert_eq!(parse_ipv4("1.2.3.4"), Some(Ipv4::new(1, 2, 3, 4)));
    assert_eq!(parse_ipv4("127.0.0.1"), Some(Ipv4::new(127, 0, 0, 1)));
}

#[test]
fn parse_rejects_empty_and_short_inputs() {
    assert_eq!(parse_ipv4(""), None);
    assert_eq!(parse_ipv4("1"), None);
    assert_eq!(parse_ipv4("1.2.3"), None);
    assert_eq!(parse_ipv4("1.2.3."), None);
}

#[test]
fn parse_rejects_extra_content() {
    assert_eq!(parse_ipv4("1.2.3.4.5"), None);
    assert_eq!(parse_ipv4("1.2.3.4 "), None);
    assert_eq!(parse_ipv4(" 1.2.3.4"), None);
    assert_eq!(parse_ipv4("1.2.3.4\n"), None);
    assert_eq!(parse_ipv4("1.2.3.4x"), None);
}

#[test]
fn parse_rejects_out_of_range_octets() {
    assert_eq!(parse_ipv4("256.1.1.1"), None);
    assert_eq!(parse_ipv4("1.1.1.300"), None);
    assert_eq!(parse_ipv4("999.1.1.1"), None);
    assert_eq!(parse_ipv4("1234.1.1.1"), None);
}

#[test]
fn parse_rejects_leading_zeros() {
    assert_eq!(parse_ipv4("01.2.3.4"), None);
    assert_eq!(parse_ipv4("1.02.3.4"), None);
    assert_eq!(parse_ipv4("1.2.3.007"), None);
    assert_eq!(parse_ipv4("00.0.0.0"), None);
}

#[test]
fn parse_rejects_malformed_separators() {
    assert_eq!(parse_ipv4("1..2.3"), None);
    assert_eq!(parse_ipv4("1,2,3,4"), None);
    assert_eq!(parse_ipv4("a.b.c.d"), None);
    assert_eq!(parse_ipv4("..."), None);
}

#[test]
fn format_produces_dotted_decimal() {
    assert_eq!(ipv4_to_string(&Ipv4::new(0, 0, 0, 0)), "0.0.0.0");
    assert_eq!(ipv4_to_string(&Ipv4::new(255, 255, 255, 255)), "255.255.255.255");
    assert_eq!(ipv4_to_string(&Ipv4::new(127, 0, 0, 1)), "127.0.0.1");
    assert_eq!(ipv4_to_string(&Ipv4::new(203, 0, 113, 5)), "203.0.113.5");
    assert_eq!(ipv4_to_string(&Ipv4::new(9, 10, 99, 100)), "9.10.99.100");
}

#[test]
fn format_then_parse_round_trips() {
    let cases = [
        Ipv4::new(0, 0, 0, 0),
        Ipv4::new(127, 0, 0, 1),
        Ipv4::new(198, 51, 100, 7),
        Ipv4::new(255, 255, 255, 255),
        Ipv4::new(10, 0, 200, 30),
    ];
    for x in cases {
        let text = ipv4_to_string(&x);
        assert_eq!(parse_ipv4(&text), Some(x));
    }
}
