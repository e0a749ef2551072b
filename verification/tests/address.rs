use auto_dns::Ipv4Address;

#[test]
fn parses_dotted_decimal() {
    assert_eq!(Ipv4Address::parse("203.0.113.5"), Some(Ipv4Address::new(203, 0, 113, 5)));
    assert_eq!(Ipv4Address::parse("0.0.0.0"), Some(Ipv4Address::new(0, 0, 0, 0)));
    assert_eq!(Ipv4Address::parse("255.255.255.255"), Some(Ipv4Address::new(255, 255, 255, 255)));
    assert_eq!(Ipv4Address::parse("10.0.0.1"), Some(Ipv4Address::new(10, 0, 0, 1)));
    assert_eq!(Ipv4Address::parse("1.20.255.9"), Some(Ipv4Address::new(1, 20, 255, 9)));
}

#[test]
fn refuses_what_is_no_address() {
    for text in [
        "", "1", "1.2.3", "1.2.3.4.5", "1.2.3.", ".1.2.3", "1..2.3", "256.1.1.1", "1.2.3.256",
        "01.2.3.4", "1.2.3.04", "00.0.0.0", "1.2.3.4 ", " 1.2.3.4", "+1.2.3.4", "1.2.3.-4",
        "1.2.3.4\n", "a.b.c.d", "1234.1.1.1", "1.2.3.0004", "１.2.3.4", "1.2.3.4.", "1,2,3,4",
        "999.999.999.999", "1.2.3.4/24", "0x1.2.3.4", "....", "1.2.3.300",
    ] {
        assert_eq!(Ipv4Address::parse(text), None, "{:?}", text);
    }
}

#[test]
fn writes_dotted_decimal() {
    assert_eq!(Ipv4Address::new(192, 168, 1, 100).to_string(), "192.168.1.100");
    assert_eq!(Ipv4Address::new(0, 10, 200, 9).to_string(), "0.10.200.9");
    assert_eq!(Ipv4Address::new(255, 255, 255, 255).to_string(), "255.255.255.255");
    assert_eq!(Ipv4Address::new(0, 0, 0, 0).to_string(), "0.0.0.0");
}

#[test]
fn text_reads_back_as_the_address() {
    let samples: [u8; 12] = [0, 1, 9, 10, 11, 99, 100, 101, 199, 200, 254, 255];
    for a in samples {
        for b in samples {
            let ip = Ipv4Address::new(a, b, b, a);
            assert_eq!(Ipv4Address::parse(&ip.to_string()), Some(ip));
            let other = Ipv4Address::new(b, a, 7, b);
            assert_eq!(Ipv4Address::parse(&other.to_string()), Some(other));
        }
    }
}

#[test]
fn octets_come_in_order() {
    assert_eq!(Ipv4Address::new(1, 2, 3, 4).octets(), [1, 2, 3, 4]);
    let ip = Ipv4Address::new(9, 8, 7, 6);
    assert_eq!((ip.a, ip.b, ip.c, ip.d), (9, 8, 7, 6));
}

#[test]
fn tells_private_and_loopback_ranges() {
    assert!(Ipv4Address::new(10, 1, 2, 3).is_private());
    assert!(Ipv4Address::new(172, 16, 0, 1).is_private());
    assert!(Ipv4Address::new(172, 31, 255, 255).is_private());
    assert!(!Ipv4Address::new(172, 15, 0, 1).is_private());
    assert!(!Ipv4Address::new(172, 32, 0, 1).is_private());
    assert!(Ipv4Address::new(192, 168, 1, 100).is_private());
    assert!(!Ipv4Address::new(192, 169, 1, 100).is_private());
    assert!(!Ipv4Address::new(203, 0, 113, 5).is_private());
    assert!(Ipv4Address::new(127, 0, 0, 1).is_loopback());
    assert!(!Ipv4Address::new(128, 0, 0, 1).is_loopback());
}
