//! The provider's side of a reconciliation: reading the address that a
//! record holds and replacing it.
//!
//! Talking to the provider is the caller's part. What is here is what the
//! gateway decides before a request goes out and after an answer has come in:
//! which record set of a listing answers for a name, what its value is, and
//! what change is to be sent. There are two gateways: `DnsUpdater` for the
//! provider itself, and `MockDnsUpdater`, which involves no provider and only
//! says what would have been done.

use crate::address::Ipv4Address;
use crate::config::AwsConfig;
use crate::text::{same_text, signed_decimal, signed_decimal_string, to_chars};
use vstd::prelude::*;
use vstd::string::StringExecFns;

verus! {

broadcast use vstd::string::group_string_axioms;

/// A domain name without the dots that it ends with.
pub open spec fn without_trailing_dots(name: Seq<char>) -> Seq<char>
    decreases name.len(),
{
    if name.len() > 0 && name.last() == '.' {
        without_trailing_dots(name.drop_last())
    } else {
        name
    }
}

/// Two domain names are the same name if they differ at most in the dots
/// that they end with.
pub open spec fn same_name(a: Seq<char>, b: Seq<char>) -> bool {
    without_trailing_dots(a) == without_trailing_dots(b)
}

/// A domain name in the form in which it is sent: ending with a dot, which is
/// added where the name has none.
pub open spec fn with_trailing_dot(name: Seq<char>) -> Seq<char> {
    if name.len() > 0 && name.last() == '.' {
        name
    } else {
        name.push('.')
    }
}

/// Where the characters from `k` on are dots and the one before them, if
/// there is one, is not, exactly the first `k` remain.
proof fn lemma_without_trailing_dots_at(name: Seq<char>, k: int)
    requires
        0 <= k <= name.len(),
        forall|i: int| k <= i < name.len() ==> #[trigger] name[i] == '.',
        0 < k ==> name[k - 1] != '.',
    ensures
        without_trailing_dots(name) == name.subrange(0, k),
    decreases name.len() - k,
{
    if k < name.len() {
        lemma_without_trailing_dots_at(name.drop_last(), k);
    }
}

/// The number of characters of a name that come before the dots it ends
/// with.
fn length_without_trailing_dots(name: &Vec<char>) -> (k: usize)
    ensures
        k <= name@.len(),
        without_trailing_dots(name@) == name@.subrange(0, k as int),
{
    let mut k: usize = name.len();
    while k > 0 && name[k - 1] == '.'
        invariant
            k <= name@.len(),
            forall|i: int| k <= i < name@.len() ==> #[trigger] name@[i] == '.',
        decreases k,
    {
        k = k - 1;
    }
    proof {
        lemma_without_trailing_dots_at(name@, k as int);
    }
    k
}

/// Tells whether two domain names are the same name.
pub fn is_same_name(a: &str, b: &str) -> (r: bool)
    ensures
        r == same_name(a@, b@),
{
    let x = to_chars(a);
    let y = to_chars(b);
    let kx = length_without_trailing_dots(&x);
    let ky = length_without_trailing_dots(&y);
    if kx != ky {
        assert(x@.subrange(0, kx as int).len() != y@.subrange(0, ky as int).len());
        return false;
    }
    let mut i: usize = 0;
    while i < kx
        invariant
            i <= kx,
            kx == ky,
            kx <= x@.len(),
            ky <= y@.len(),
            x@ == a@,
            y@ == b@,
            without_trailing_dots(x@) == x@.subrange(0, kx as int),
            without_trailing_dots(y@) == y@.subrange(0, ky as int),
            x@.subrange(0, i as int) == y@.subrange(0, i as int),
        decreases kx - i,
    {
        if x[i] != y[i] {
            assert(x@.subrange(0, kx as int)[i as int] != y@.subrange(0, ky as int)[i as int]);
            return false;
        }
        i = i + 1;
    }
    true
}

/// Writes a domain name in the form in which it is sent.
pub fn to_fully_qualified(name: &str) -> (r: String)
    ensures
        r@ == with_trailing_dot(name@),
{
    let chars = to_chars(name);
    let n: usize = chars.len();
    let mut r = name.to_owned();
    if n > 0 && chars[n - 1] == '.' {
        r
    } else {
        proof {
            reveal_strlit(".");
        }
        r.append(".");
        r
    }
}

/// One record set of a zone, as the provider lists it.
#[derive(Debug, Clone, PartialEq, Eq)]
pub struct ResourceRecordSet {
    /// The name of the records.
    pub name: String,
    /// Their type, in the provider's letters: `A`, `AAAA`, `CNAME`, ...
    pub record_type: String,
    /// Their values, in the order in which the provider gives them.
    pub values: Vec<String>,
}

/// Why a record could not be read.
#[derive(Debug, Clone, PartialEq, Eq)]
pub enum ReadError {
    /// The provider did not list the zone; the text is its reason.
    Provider(String),
    /// The record's value, which the text holds, is no IPv4 address.
    MalformedValue(String),
}

/// What reading a record came to.
#[derive(Debug, Clone, PartialEq, Eq)]
pub enum ReadOutcome {
    /// The record holds this address.
    Found(Ipv4Address),
    /// The zone has no `A` record of that name.
    NotFound,
    /// The record could not be read.
    Error(ReadError),
}

/// What writing a record came to.
#[derive(Debug, Clone, PartialEq, Eq)]
pub enum WriteOutcome {
    /// The provider took the change, and gave it this identifier if it gave
    /// one.
    Ack(Option<String>),
    /// The provider refused the change or could not be reached; the text is
    /// the reason.
    Error(String),
}

impl ResourceRecordSet {
    /// Whether the record set answers for the `A` record `name`: it has that
    /// name, the type `A`, and a value.
    pub open spec fn answers(self, name: Seq<char>) -> bool {
        &&& same_name(self.name@, name)
        &&& self.record_type@ == "A"@
        &&& self.values@.len() > 0
    }

    /// Tells whether the record set answers for the `A` record `name`.
    pub fn is_answer(&self, name: &str) -> (r: bool)
        ensures
            r == self.answers(name@),
    {
        is_same_name(self.name.as_str(), name) && same_text(self.record_type.as_str(), "A")
            && self.values.len() > 0
    }
}

/// The place in `sets` of the first record set from `from` on that answers
/// for `name`.
pub open spec fn first_answer(sets: Seq<ResourceRecordSet>, name: Seq<char>, from: int) -> Option<
    int,
>
    decreases sets.len() - from,
{
    if from < 0 || from >= sets.len() {
        None
    } else if sets[from].answers(name) {
        Some(from)
    } else {
        first_answer(sets, name, from + 1)
    }
}

/// `first_answer` gives the first record set that answers, and none only if
/// none answers.
pub proof fn lemma_first_answer(sets: Seq<ResourceRecordSet>, name: Seq<char>, from: int)
    requires
        0 <= from,
    ensures
        match first_answer(sets, name, from) {
            Some(i) => from <= i < sets.len() && sets[i].answers(name) && forall|j: int|
                from <= j < i ==> !(#[trigger] sets[j]).answers(name),
            None => forall|j: int| from <= j < sets.len() ==> !(#[trigger] sets[j]).answers(name),
        },
    decreases sets.len() - from,
{
    if from < sets.len() && !sets[from].answers(name) {
        lemma_first_answer(sets, name, from + 1);
    }
}

/// The texts of a list of strings.
pub open spec fn texts(lines: Seq<String>) -> Seq<Seq<char>> {
    Seq::new(lines.len(), |i: int| lines[i]@)
}

/// Where the gateway's credentials come from.
#[derive(Debug, Clone, PartialEq, Eq)]
pub enum CredentialSource {
    /// From the configuration: this key pair.
    Explicit { access_key_id: String, secret_access_key: String },
    /// From the surroundings of the process: its variables, its profile, the
    /// role of the machine.
    Ambient,
}

/// A moment: seconds since the start of 1970 in UTC, leap seconds not
/// counted, and the nanoseconds into that second.
#[derive(Debug, Clone, Copy, PartialEq, Eq, Structural)]
pub struct Timestamp {
    pub secs: i64,
    pub nanos: u32,
}

/// The change that replaces an `A` record, or creates it where there is
/// none: one change of one record set with one value.
#[derive(Debug, Clone, PartialEq, Eq)]
pub struct ChangeRequest {
    /// The zone that holds the record.
    pub hosted_zone_id: String,
    /// A note on the change, for its reader at the provider.
    pub comment: Option<String>,
    /// What is to be done, in the provider's letters.
    pub action: String,
    /// The record's name, ending with a dot.
    pub name: String,
    /// The record's type, in the provider's letters.
    pub record_type: String,
    /// The record's time-to-live, in seconds.
    pub ttl: i64,
    /// The record's one value: the text of the address.
    pub value: String,
}

/// The gateway to the provider.
#[derive(Debug, Clone, PartialEq, Eq)]
pub struct DnsUpdater {
    /// Where the credentials for the requests come from.
    pub credentials: CredentialSource,
    /// The provider's region that the requests are sent to.
    pub region: String,
}

/// The text that `chrono` writes for the moment `secs` seconds and `nanos`
/// nanoseconds after the start of 1970 in UTC, if it can hold that moment.
pub uninterp spec fn utc_text(secs: i64, nanos: u32) -> Option<Seq<char>>;

/// Calls `chrono::DateTime::from_timestamp` and writes the `DateTime<Utc>`
/// that it gives by its `Display`. The contract claims no more than that the
/// outcome is a function of the two numbers: whether there is a text, and
/// which, is `utc_text` of them.
#[verifier::external_body]
fn utc_time_text(secs: i64, nanos: u32) -> (r: Option<String>)
    ensures
        r is Some <==> utc_text(secs, nanos) is Some,
        r matches Some(text) ==> utc_text(secs, nanos) == Some(text@),
{
    match chrono::DateTime::from_timestamp(secs, nanos) {
        Some(moment) => Some(moment.to_string()),
        None => None,
    }
}

/// The note that goes with a change made at the moment written as `time`.
pub open spec fn change_comment(time: Seq<char>) -> Seq<char> {
    "Updated by auto-dns at "@ + time
}

impl DnsUpdater {
    /// The gateway for the given configuration. It uses the configured key
    /// pair if both of its parts are there, and else what the surroundings
    /// of the process provide.
    pub fn new(aws_config: &AwsConfig) -> (updater: DnsUpdater)
        ensures
            updater.region@ == "us-east-1"@,
            aws_config.has_key_pair() ==> (updater.credentials matches CredentialSource::Explicit {
                access_key_id,
                secret_access_key,
            } && access_key_id@ == aws_config.access_key_id@ && secret_access_key@
                == aws_config.secret_access_key@),
            !aws_config.has_key_pair() ==> updater.credentials is Ambient,
    {
        let credentials = if !aws_config.access_key_id.as_str().is_empty()
            && !aws_config.secret_access_key.as_str().is_empty() {
            CredentialSource::Explicit {
                access_key_id: aws_config.access_key_id.clone(),
                secret_access_key: aws_config.secret_access_key.clone(),
            }
        } else {
            CredentialSource::Ambient
        };
        DnsUpdater { credentials, region: aws_config.region() }
    }

    /// Finds the address of the `A` record `record_name` in what came of
    /// listing the record sets of its zone.
    ///
    /// The first record set that answers for the name decides: its first
    /// value is the address, or, if that value is no address, the error. With
    /// no such record set the record is not found. Where the listing itself
    /// failed, so does the reading.
    pub fn get_current_record_ip(
        &self,
        listing: &Result<Vec<ResourceRecordSet>, String>,
        record_name: &str,
    ) -> (r: ReadOutcome)
        ensures
            match *listing {
                Err(reason) => (r matches ReadOutcome::Error(ReadError::Provider(text)) && text@
                    == reason@),
                Ok(sets) => match first_answer(sets@, record_name@, 0) {
                    None => r is NotFound,
                    Some(i) => match Ipv4Address::parsed(sets@[i].values@[0]@) {
                        Some(ip) => r == ReadOutcome::Found(ip),
                        None => (r matches ReadOutcome::Error(ReadError::MalformedValue(text))
                            && text@ == sets@[i].values@[0]@),
                    },
                },
            },
    {
        match listing {
            Err(reason) => ReadOutcome::Error(ReadError::Provider(reason.clone())),
            Ok(sets) => {
                let n: usize = sets.len();
                let mut i: usize = 0;
                while i < n
                    invariant
                        i <= n,
                        n == sets@.len(),
                        *listing == Ok::<Vec<ResourceRecordSet>, String>(*sets),
                        first_answer(sets@, record_name@, 0) == first_answer(
                            sets@,
                            record_name@,
                            i as int,
                        ),
                    decreases n - i,
                {
                    if sets[i].is_answer(record_name) {
                        let value = &sets[i].values[0];
                        return match Ipv4Address::parse(value.as_str()) {
                            Some(ip) => ReadOutcome::Found(ip),
                            None => ReadOutcome::Error(ReadError::MalformedValue(value.clone())),
                        };
                    }
                    i = i + 1;
                }
                ReadOutcome::NotFound
            },
        }
    }

    /// The change that points the `A` record `record_name` of the zone
    /// `hosted_zone_id` at `ip`, with the time-to-live `ttl`, noted as made
    /// at the moment that `time` is the text of, or without a note where
    /// there is no such text.
    pub fn change_request(
        &self,
        hosted_zone_id: &str,
        record_name: &str,
        ip: &Ipv4Address,
        ttl: i64,
        time: Option<String>,
    ) -> (r: ChangeRequest)
        ensures
            r.hosted_zone_id@ == hosted_zone_id@,
            r.action@ == "UPSERT"@,
            r.name@ == with_trailing_dot(record_name@),
            r.record_type@ == "A"@,
            r.ttl == ttl,
            r.value@ == ip.text(),
            match time {
                Some(text) => (r.comment matches Some(note) && note@ == change_comment(text@)),
                None => r.comment is None,
            },
    {
        let comment = match time {
            Some(text) => Some("Updated by auto-dns at ".to_owned().concat(text.as_str())),
            None => None,
        };
        ChangeRequest {
            hosted_zone_id: hosted_zone_id.to_owned(),
            comment,
            action: "UPSERT".to_owned(),
            name: to_fully_qualified(record_name),
            record_type: "A".to_owned(),
            ttl,
            value: ip.to_string(),
        }
    }

    /// The change to send at the moment `now` so that the `A` record
    /// `record_name` of the zone `hosted_zone_id` points at `ip`, with the
    /// time-to-live `ttl`. It replaces the record or creates it, so sending
    /// it twice comes to the same as sending it once.
    pub fn update_record(
        &self,
        hosted_zone_id: &str,
        record_name: &str,
        ip: &Ipv4Address,
        ttl: i64,
        now: Timestamp,
    ) -> (r: ChangeRequest)
        ensures
            r.hosted_zone_id@ == hosted_zone_id@,
            r.action@ == "UPSERT"@,
            r.name@ == with_trailing_dot(record_name@),
            r.record_type@ == "A"@,
            r.ttl == ttl,
            r.value@ == ip.text(),
            match utc_text(now.secs, now.nanos) {
                Some(text) => (r.comment matches Some(note) && note@ == change_comment(text)),
                None => r.comment is None,
            },
    {
        let time = utc_time_text(now.secs, now.nanos);
        self.change_request(hosted_zone_id, record_name, ip, ttl, time)
    }
}

/// The gateway that involves no provider. Every record reads as one
/// address, fixed and private, so that it differs from whatever public
/// address was detected and every record is taken to need a change; and a
/// change is taken as made without anything being sent.
#[derive(Debug, Clone, PartialEq, Eq)]
pub struct MockDnsUpdater {}

impl MockDnsUpdater {
    /// The address that every record reads as: `192.168.1.100`.
    pub open spec fn simulated_ip() -> Ipv4Address {
        Ipv4Address { a: 192, b: 168, c: 1, d: 100 }
    }

    /// What is to be logged when a record is read.
    pub open spec fn read_log(hosted_zone_id: Seq<char>, record_name: Seq<char>) -> Seq<Seq<char>> {
        seq![
            "[DRY RUN] Getting current IP for record: "@ + record_name + " in zone "@
                + hosted_zone_id,
            "[DRY RUN] Simulated current DNS IP: "@ + Self::simulated_ip().text(),
        ]
    }

    /// What is to be logged when a record is written.
    pub open spec fn update_log(
        hosted_zone_id: Seq<char>,
        record_name: Seq<char>,
        ip: Ipv4Address,
        ttl: i64,
    ) -> Seq<Seq<char>> {
        seq![
            "[DRY RUN] Would update DNS record "@ + record_name + " in zone "@ + hosted_zone_id
                + " to "@ + ip.text() + " with TTL "@ + signed_decimal(ttl as int),
            "[DRY RUN] AWS Route53 API call would be made to change_resource_record_sets"@,
            "[DRY RUN] Change would be: UPSERT A record "@ + record_name + " -> "@ + ip.text(),
        ]
    }

    /// The gateway. It holds nothing: there is one such gateway only.
    pub fn new() -> (updater: MockDnsUpdater)
        ensures
            updater == (MockDnsUpdater {  }),
    {
        MockDnsUpdater {  }
    }

    /// Reads a record: always the same address, whatever the zone and the
    /// name.
    pub fn get_current_record_ip(&self, hosted_zone_id: &str, record_name: &str) -> (r:
        ReadOutcome)
        ensures
            r == ReadOutcome::Found(Self::simulated_ip()),
    {
        ReadOutcome::Found(Ipv4Address { a: 192, b: 168, c: 1, d: 100 })
    }

    /// Writes a record: always a success, without an identifier of a change,
    /// as none was made.
    pub fn update_record(
        &self,
        hosted_zone_id: &str,
        record_name: &str,
        ip: &Ipv4Address,
        ttl: i64,
    ) -> (r: WriteOutcome)
        ensures
            r == WriteOutcome::Ack(None),
    {
        WriteOutcome::Ack(None)
    }

    /// The lines to log when a record is read.
    pub fn describe_read(&self, hosted_zone_id: &str, record_name: &str) -> (lines: Vec<String>)
        ensures
            texts(lines@) == Self::read_log(hosted_zone_id@, record_name@),
    {
        let mut first = "[DRY RUN] Getting current IP for record: ".to_owned();
        first.append(record_name);
        first.append(" in zone ");
        first.append(hosted_zone_id);
        let address = Ipv4Address { a: 192, b: 168, c: 1, d: 100 };
        let mut second = "[DRY RUN] Simulated current DNS IP: ".to_owned();
        second.append(address.to_string().as_str());
        let mut lines: Vec<String> = Vec::new();
        lines.push(first);
        lines.push(second);
        lines
    }

    /// The lines to log when a record is written: what would have been sent.
    pub fn describe_update(
        &self,
        hosted_zone_id: &str,
        record_name: &str,
        ip: &Ipv4Address,
        ttl: i64,
    ) -> (lines: Vec<String>)
        ensures
            texts(lines@) == Self::update_log(hosted_zone_id@, record_name@, *ip, ttl),
    {
        let address = ip.to_string();
        let mut first = "[DRY RUN] Would update DNS record ".to_owned();
        first.append(record_name);
        first.append(" in zone ");
        first.append(hosted_zone_id);
        first.append(" to ");
        first.append(address.as_str());
        first.append(" with TTL ");
        first.append(signed_decimal_string(ttl).as_str());
        let second = "[DRY RUN] AWS Route53 API call would be made to change_resource_record_sets"
            .to_owned();
        let mut third = "[DRY RUN] Change would be: UPSERT A record ".to_owned();
        third.append(record_name);
        third.append(" -> ");
        third.append(address.as_str());
        let mut lines: Vec<String> = Vec::new();
        lines.push(first);
        lines.push(second);
        lines.push(third);
        lines
    }
}

/// The address that the simulated gateway reads is a private one, so it
/// differs from every address that is not: from every address that a
/// service out in the network can have seen a request come from.
pub proof fn lemma_simulated_ip_is_private()
    ensures
        MockDnsUpdater::simulated_ip().private(),
        forall|ip: Ipv4Address| !ip.private() ==> ip != MockDnsUpdater::simulated_ip(),
{
}

} // verus!
