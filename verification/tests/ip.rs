use auto_dns::{Detection, FetchError, FetchOutcome, IpDetector, Ipv4Address};

fn answer(status: u16, body: &str) -> FetchOutcome {
    FetchOutcome::Response { status, body: body.to_string() }
}

fn failure() -> FetchOutcome {
    FetchOutcome::Failed("connection refused".to_string())
}

/// Runs a detection, answering the service at `i` with `outcomes[i]`, and
/// gives the result with the addresses of the services that were asked.
fn detect(detector: &IpDetector, outcomes: &[FetchOutcome]) -> (Option<Ipv4Address>, Vec<String>) {
    let mut asked = Vec::new();
    let mut detection = detector.get_public_ip();
    loop {
        match detection {
            Detection::Query(query) => {
                assert_eq!(query.index(), asked.len());
                asked.push(query.url().to_string());
                detection = query.resolve(&outcomes[asked.len() - 1]);
            }
            Detection::Found(ip) => return (Some(ip), asked),
            Detection::Exhausted => return (None, asked),
        }
    }
}

#[test]
fn first_source_with_an_address_wins_and_later_ones_are_not_asked() {
    let detector = IpDetector::with_services(vec!["A".to_string(), "B".to_string(), "C".to_string()]);
    let outcomes = [failure(), answer(200, "10.0.0.1"), answer(200, "10.9.9.9")];
    let (ip, asked) = detect(&detector, &outcomes);
    assert_eq!(ip, Some(Ipv4Address::new(10, 0, 0, 1)));
    assert_eq!(asked, vec!["A", "B"]);
}

#[test]
fn all_sources_failing_is_a_failure_without_an_address() {
    let detector = IpDetector::with_services(vec!["A".to_string(), "B".to_string(), "C".to_string()]);
    let outcomes = [failure(), answer(500, "10.0.0.1"), answer(200, "not an address")];
    let (ip, asked) = detect(&detector, &outcomes);
    assert_eq!(ip, None);
    assert_eq!(asked, vec!["A", "B", "C"]);
}

#[test]
fn a_chain_without_services_fails_at_once() {
    let detector = IpDetector::with_services(vec![]);
    assert!(matches!(detector.get_public_ip(), Detection::Exhausted));
}

#[test]
fn test_get_public_ip() {
    let detector = IpDetector::new();
    let outcomes = [
        failure(),
        answer(503, "busy"),
        answer(200, "203.0.113.5\n"),
        answer(200, "198.51.100.1"),
        answer(200, "198.51.100.2"),
    ];
    let (result, asked) = detect(&detector, &outcomes);
    let ip = result.unwrap();
    assert_eq!(ip, Ipv4Address::new(203, 0, 113, 5));
    assert!(!ip.is_loopback());
    assert!(!ip.is_private());
    assert_eq!(
        asked,
        vec!["https://api.ipify.org", "https://icanhazip.com", "https://ifconfig.me/ip"]
    );
}

#[test]
fn default_chain_has_five_services_and_a_timeout_of_ten_seconds() {
    let detector = IpDetector::new();
    assert_eq!(
        detector.services(),
        &vec![
            "https://api.ipify.org".to_string(),
            "https://icanhazip.com".to_string(),
            "https://ifconfig.me/ip".to_string(),
            "https://checkip.amazonaws.com".to_string(),
            "https://ipecho.net/plain".to_string(),
        ]
    );
    assert_eq!(detector.timeout_secs(), 10);
}

#[test]
fn an_outcome_gives_the_address_in_a_successful_body() {
    assert_eq!(answer(200, "203.0.113.5").address(), Ok(Ipv4Address::new(203, 0, 113, 5)));
    assert_eq!(answer(200, "  203.0.113.5\r\n").address(), Ok(Ipv4Address::new(203, 0, 113, 5)));
    assert_eq!(answer(299, "1.1.1.1").address(), Ok(Ipv4Address::new(1, 1, 1, 1)));
}

#[test]
fn an_outcome_without_an_address_says_why() {
    assert_eq!(failure().address(), Err(FetchError::Request("connection refused".to_string())));
    assert_eq!(answer(199, "1.1.1.1").address(), Err(FetchError::HttpStatus(199)));
    assert_eq!(answer(300, "1.1.1.1").address(), Err(FetchError::HttpStatus(300)));
    assert_eq!(answer(404, "1.1.1.1").address(), Err(FetchError::HttpStatus(404)));
    assert_eq!(
        answer(200, " <html>1.1.1.1</html> ").address(),
        Err(FetchError::InvalidAddress("<html>1.1.1.1</html>".to_string()))
    );
    assert_eq!(answer(200, "").address(), Err(FetchError::InvalidAddress(String::new())));
    assert_eq!(
        answer(200, "1.1.1.1 2.2.2.2").address(),
        Err(FetchError::InvalidAddress("1.1.1.1 2.2.2.2".to_string()))
    );
}

#[test]
fn success_statuses_are_the_two_hundreds() {
    assert!(!auto_dns::ip::is_success_status(199));
    assert!(auto_dns::ip::is_success_status(200));
    assert!(auto_dns::ip::is_success_status(204));
    assert!(auto_dns::ip::is_success_status(299));
    assert!(!auto_dns::ip::is_success_status(300));
    assert!(!auto_dns::ip::is_success_status(0));
}
