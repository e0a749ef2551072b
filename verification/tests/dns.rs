use auto_dns::dns::{is_same_name, to_fully_qualified};
use auto_dns::{
    AwsConfig, CredentialSource, DnsUpdater, Ipv4Address, MockDnsUpdater, ReadError, ReadOutcome,
    ResourceRecordSet, Timestamp, WriteOutcome,
};

fn updater() -> DnsUpdater {
    DnsUpdater::new(&AwsConfig {
        access_key_id: "test-access-key".to_string(),
        secret_access_key: "test-secret-key".to_string(),
    })
}

fn set(name: &str, record_type: &str, values: &[&str]) -> ResourceRecordSet {
    ResourceRecordSet {
        name: name.to_string(),
        record_type: record_type.to_string(),
        values: values.iter().map(|v| v.to_string()).collect(),
    }
}

#[test]
fn test_dns_operations() {
    let updater = updater();
    let test_zone_id = "Z1234567890ABC";
    let test_record = "test.example.com";
    let test_ip = Ipv4Address::parse("1.2.3.4").unwrap();

    let change = updater.update_record(
        test_zone_id,
        test_record,
        &test_ip,
        300,
        Timestamp { secs: 1431648000, nanos: 0 },
    );
    assert_eq!(change.hosted_zone_id, "Z1234567890ABC");
    assert_eq!(change.action, "UPSERT");
    assert_eq!(change.name, "test.example.com.");
    assert_eq!(change.record_type, "A");
    assert_eq!(change.ttl, 300);
    assert_eq!(change.value, "1.2.3.4");

    // The zone as it lists once the change is made.
    let listing = Ok(vec![set(&change.name, &change.record_type, &[&change.value])]);
    let retrieved_ip = updater.get_current_record_ip(&listing, test_record);
    assert_eq!(retrieved_ip, ReadOutcome::Found(test_ip));
}

#[test]
fn a_change_is_noted_with_the_time_in_utc() {
    let ip = Ipv4Address::new(203, 0, 113, 5);
    let change = updater().update_record("Z1", "home.example.com.", &ip, 60, Timestamp {
        secs: 1431648000,
        nanos: 0,
    });
    assert_eq!(change.comment, Some("Updated by auto-dns at 2015-05-15 00:00:00 UTC".to_string()));
    assert_eq!(change.name, "home.example.com.");
    let later = updater().update_record("Z1", "home.example.com", &ip, 60, Timestamp {
        secs: 1700000000,
        nanos: 123456789,
    });
    assert_eq!(
        later.comment,
        Some("Updated by auto-dns at 2023-11-14 22:13:20.123456789 UTC".to_string())
    );
}

#[test]
fn a_change_at_a_moment_out_of_range_has_no_note() {
    let ip = Ipv4Address::new(203, 0, 113, 5);
    let change =
        updater().update_record("Z1", "a.b", &ip, 60, Timestamp { secs: i64::MAX, nanos: 0 });
    assert_eq!(change.comment, None);
    assert_eq!(change.value, "203.0.113.5");
    let change =
        updater().update_record("Z1", "a.b", &ip, 60, Timestamp { secs: 0, nanos: u32::MAX });
    assert_eq!(change.comment, None);
}

#[test]
fn a_change_request_takes_the_time_as_it_is_given() {
    let ip = Ipv4Address::new(10, 0, 0, 1);
    let change = updater().change_request("Z9", "a.example.com", &ip, 42, Some("noon".to_string()));
    assert_eq!(change.comment, Some("Updated by auto-dns at noon".to_string()));
    assert_eq!(change.hosted_zone_id, "Z9");
    assert_eq!(change.name, "a.example.com.");
    assert_eq!(change.ttl, 42);
    assert_eq!(change.value, "10.0.0.1");
    let plain = updater().change_request("Z9", "a.example.com", &ip, 42, None);
    assert_eq!(plain.comment, None);
}

#[test]
fn the_gateway_takes_its_key_pair_from_the_configuration() {
    let updater = updater();
    assert_eq!(
        updater.credentials,
        CredentialSource::Explicit {
            access_key_id: "test-access-key".to_string(),
            secret_access_key: "test-secret-key".to_string(),
        }
    );
    assert_eq!(updater.region, "us-east-1");
}

#[test]
fn the_gateway_falls_back_to_ambient_credentials() {
    for (key, secret) in [("", ""), ("AKIA", ""), ("", "secret")] {
        let updater = DnsUpdater::new(&AwsConfig {
            access_key_id: key.to_string(),
            secret_access_key: secret.to_string(),
        });
        assert_eq!(updater.credentials, CredentialSource::Ambient);
    }
}

#[test]
fn reading_finds_the_first_a_record_of_the_name() {
    let listing = Ok(vec![
        set("example.com.", "NS", &["ns-1.example.net."]),
        set("home.example.com.", "AAAA", &["2001:db8::1"]),
        set("other.example.com.", "A", &["198.51.100.7"]),
        set("home.example.com.", "A", &[]),
        set("home.example.com.", "A", &["203.0.113.1", "203.0.113.2"]),
        set("home.example.com.", "A", &["203.0.113.9"]),
    ]);
    let updater = updater();
    let expected = ReadOutcome::Found(Ipv4Address::new(203, 0, 113, 1));
    assert_eq!(updater.get_current_record_ip(&listing, "home.example.com"), expected);
    assert_eq!(updater.get_current_record_ip(&listing, "home.example.com."), expected);
    assert_eq!(updater.get_current_record_ip(&listing, "home.example.com.."), expected);
}

#[test]
fn reading_a_record_that_is_not_listed_finds_nothing() {
    let listing = Ok(vec![
        set("home.example.com.", "AAAA", &["2001:db8::1"]),
        set("other.example.com.", "A", &["198.51.100.7"]),
        set("Home.example.com.", "A", &["198.51.100.8"]),
    ]);
    let updater = updater();
    assert_eq!(updater.get_current_record_ip(&listing, "home.example.com"), ReadOutcome::NotFound);
    assert_eq!(updater.get_current_record_ip(&Ok(vec![]), "home.example.com"), ReadOutcome::NotFound);
}

#[test]
fn reading_a_malformed_value_is_an_error_and_not_an_absence() {
    let listing = Ok(vec![
        set("home.example.com.", "A", &["203.0.113.001"]),
        set("home.example.com.", "A", &["203.0.113.9"]),
    ]);
    assert_eq!(
        updater().get_current_record_ip(&listing, "home.example.com"),
        ReadOutcome::Error(ReadError::MalformedValue("203.0.113.001".to_string()))
    );
}

#[test]
fn reading_fails_where_the_listing_failed() {
    let listing = Err("access denied".to_string());
    assert_eq!(
        updater().get_current_record_ip(&listing, "home.example.com"),
        ReadOutcome::Error(ReadError::Provider("access denied".to_string()))
    );
}

#[test]
fn names_are_the_same_up_to_trailing_dots() {
    assert!(is_same_name("a.example.com", "a.example.com."));
    assert!(is_same_name("a.example.com..", "a.example.com"));
    assert!(is_same_name("", "."));
    assert!(!is_same_name("a.example.com", "b.example.com"));
    assert!(!is_same_name("a.example.com", "a.example.co"));
    assert!(!is_same_name("a.example.com", ".a.example.com"));
    assert!(!is_same_name("A.example.com", "a.example.com"));
}

#[test]
fn names_are_sent_with_one_trailing_dot() {
    assert_eq!(to_fully_qualified("a.example.com"), "a.example.com.");
    assert_eq!(to_fully_qualified("a.example.com."), "a.example.com.");
    assert_eq!(to_fully_qualified(""), ".");
    assert_eq!(to_fully_qualified("a.."), "a..");
}

#[test]
fn a_record_set_answers_by_name_type_and_value() {
    assert!(set("a.b.", "A", &["1.1.1.1"]).is_answer("a.b"));
    assert!(!set("a.b.", "A", &[]).is_answer("a.b"));
    assert!(!set("a.b.", "CNAME", &["c.d."]).is_answer("a.b"));
    assert!(!set("a.c.", "A", &["1.1.1.1"]).is_answer("a.b"));
}

#[test]
fn simulated_gateway_always_reads_the_same_private_address() {
    let mock = MockDnsUpdater::new();
    let sentinel = Ipv4Address::new(192, 168, 1, 100);
    for (zone, name) in [("Z1", "home.example.com"), ("", ""), ("Z2", "other.example.org.")] {
        assert_eq!(mock.get_current_record_ip(zone, name), ReadOutcome::Found(sentinel));
        assert_eq!(mock.get_current_record_ip(zone, name), ReadOutcome::Found(sentinel));
    }
    assert!(sentinel.is_private());
    assert_ne!(sentinel, Ipv4Address::new(203, 0, 113, 5));
}

#[test]
fn simulated_gateway_always_takes_a_write() {
    let mock = MockDnsUpdater::new();
    let ip = Ipv4Address::new(203, 0, 113, 5);
    assert_eq!(mock.update_record("Z1", "home.example.com", &ip, 300), WriteOutcome::Ack(None));
    assert_eq!(mock.update_record("", "", &ip, -1), WriteOutcome::Ack(None));
}

#[test]
fn test_no_aws_flag() {
    let mock = MockDnsUpdater::new();
    let ip = Ipv4Address::new(203, 0, 113, 5);
    let mut lines = mock.describe_read("Z123456789ABC", "test.example.com");
    lines.extend(mock.describe_update("Z123456789ABC", "test.example.com", &ip, 300));
    let stdout = lines.join("\n");
    assert!(stdout.contains("[DRY RUN]"));
    assert!(stdout.contains("Would update DNS record"));
    assert!(stdout.contains("AWS Route53 API call would be made"));
    assert_eq!(
        lines,
        vec![
            "[DRY RUN] Getting current IP for record: test.example.com in zone Z123456789ABC",
            "[DRY RUN] Simulated current DNS IP: 192.168.1.100",
            "[DRY RUN] Would update DNS record test.example.com in zone Z123456789ABC to \
             203.0.113.5 with TTL 300",
            "[DRY RUN] AWS Route53 API call would be made to change_resource_record_sets",
            "[DRY RUN] Change would be: UPSERT A record test.example.com -> 203.0.113.5",
        ]
    );
}
