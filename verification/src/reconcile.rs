//! One cycle of reconciliation: detect the public address, then, record by
//! record in the configured order, read the address that the record holds
//! and replace it if it is another.
//!
//! The requests are the caller's to make. A cycle is a sequence of steps;
//! each step names one request, takes what came of it, and gives the next
//! step. A record is written exactly if it did not read as the detected
//! address, and then once; a record that could not be read or written does
//! not keep the records after it from being reconciled.

use crate::address::Ipv4Address;
use crate::config::{Config, DnsRecord};
use crate::dns::{ReadOutcome, WriteOutcome};
use crate::ip::{Detection, FetchOutcome, IpDetector, Query};
use vstd::prelude::*;
use vstd::string::StringExecFns;

verus! {

broadcast use vstd::string::group_string_axioms;

/// What a cycle came to for one record.
#[derive(Debug, Clone, PartialEq, Eq)]
pub enum ReconciliationOutcome {
    /// The record held the detected address already; nothing was written.
    Unchanged(Ipv4Address),
    /// The record was written and now holds `current`. Before, it held
    /// `previous`, or it did not exist or could not be read.
    Updated { previous: Option<Ipv4Address>, current: Ipv4Address },
    /// The record was to be written and the write failed; the text is the
    /// reason that the gateway gave.
    Failed(String),
}

/// The account of one record in a cycle: what reading it gave and what the
/// cycle came to for it.
#[derive(Debug, Clone, PartialEq, Eq)]
pub struct RecordReport {
    /// The record's name.
    pub name: String,
    /// What reading the record gave.
    pub read: ReadOutcome,
    /// What the cycle came to for the record.
    pub outcome: ReconciliationOutcome,
}

/// The account of a cycle.
#[derive(Debug, Clone, PartialEq, Eq)]
pub struct CycleReport {
    /// The detected address, or `None` if no service gave one.
    pub detected: Option<Ipv4Address>,
    /// The accounts of the records, in the configured order.
    pub records: Vec<RecordReport>,
}

/// Why a cycle failed.
#[derive(Debug, Clone, PartialEq, Eq)]
pub enum CycleError {
    /// No service gave the public address, so no record was touched.
    DetectionFailure,
    /// The record `name` was to be written and the write failed for `reason`.
    /// It is the first such record of the cycle.
    WriteFailed { name: String, reason: String },
}

/// The request to read a record.
#[derive(Debug, Clone, Copy, PartialEq, Eq)]
pub struct ReadRequest<'a> {
    /// The zone that holds the record.
    pub hosted_zone_id: &'a str,
    /// The record's name.
    pub record_name: &'a str,
}

/// The request to write a record: to make it hold `ip`, whether it exists or
/// not.
#[derive(Debug, Clone, Copy, PartialEq, Eq)]
pub struct UpsertRequest<'a> {
    /// The zone that holds the record.
    pub hosted_zone_id: &'a str,
    /// The record's name.
    pub record_name: &'a str,
    /// The address to write.
    pub ip: Ipv4Address,
    /// The record's time-to-live, in seconds.
    pub ttl: i64,
}

/// The address that a read found, if it found one.
pub open spec fn found(read: ReadOutcome) -> Option<Ipv4Address> {
    match read {
        ReadOutcome::Found(ip) => Some(ip),
        _ => None,
    }
}

/// Whether a record that read as `read` is to be written when the detected
/// address is `detected`: in every case but the one that it holds that
/// address already.
pub open spec fn needs_write(read: ReadOutcome, detected: Ipv4Address) -> bool {
    read != ReadOutcome::Found(detected)
}

/// Tells whether a record that read as `read` is to be written.
pub fn is_write_needed(read: &ReadOutcome, detected: &Ipv4Address) -> (r: bool)
    ensures
        r == needs_write(*read, *detected),
{
    match read {
        ReadOutcome::Found(ip) => *ip != *detected,
        _ => true,
    }
}

impl RecordReport {
    /// Whether the account is one that a cycle with the detected address
    /// `detected` gives for `record`: unchanged exactly if the record read
    /// as that address, and else written, with that address.
    pub open spec fn consistent(self, record: DnsRecord, detected: Ipv4Address) -> bool {
        &&& self.name@ == record.name@
        &&& match self.outcome {
            ReconciliationOutcome::Unchanged(ip) => ip == detected && !needs_write(
                self.read,
                detected,
            ),
            ReconciliationOutcome::Updated { previous, current } => current == detected
                && previous == found(self.read) && needs_write(self.read, detected),
            ReconciliationOutcome::Failed(_) => needs_write(self.read, detected),
        }
    }
}

/// The account of a record that read as the detected address: unchanged.
pub open spec fn unchanged_account(record: DnsRecord, read: ReadOutcome, detected: Ipv4Address)
    -> RecordReport {
    RecordReport { name: record.name, read, outcome: ReconciliationOutcome::Unchanged(detected) }
}

/// The account of a record that read as `read` and was then written, with
/// `write` as what came of it: updated to the detected address if the write
/// was taken, failed with the reason of the write if it was not.
pub open spec fn written_account(
    record: DnsRecord,
    read: ReadOutcome,
    detected: Ipv4Address,
    write: WriteOutcome,
) -> RecordReport {
    RecordReport {
        name: record.name,
        read,
        outcome: match write {
            WriteOutcome::Ack(_) => ReconciliationOutcome::Updated {
                previous: found(read),
                current: detected,
            },
            WriteOutcome::Error(reason) => ReconciliationOutcome::Failed(reason),
        },
    }
}

impl CycleError {
    /// The error in words.
    pub open spec fn message_text(self) -> Seq<char> {
        match self {
            CycleError::DetectionFailure => "Failed to detect public IP from any service"@,
            CycleError::WriteFailed { name, reason } => "Failed to update DNS record "@ + name@
                + ": "@ + reason@,
        }
    }

    /// Writes the error in words.
    pub fn message(&self) -> (r: String)
        ensures
            r@ == self.message_text(),
    {
        match self {
            CycleError::DetectionFailure => "Failed to detect public IP from any service"
                .to_owned(),
            CycleError::WriteFailed { name, reason } => {
                let mut r = "Failed to update DNS record ".to_owned();
                r.append(name.as_str());
                r.append(": ");
                r.append(reason.as_str());
                r
            },
        }
    }
}

impl CycleReport {
    /// Whether the account is one of a whole cycle over `config`: without a
    /// detected address no record was touched, and with one every record
    /// has its account, in the configured order.
    pub open spec fn sound(self, config: Config) -> bool {
        match self.detected {
            None => self.records@.len() == 0,
            Some(ip) => {
                &&& self.records@.len() == config.records@.len()
                &&& forall|i: int|
                    0 <= i < self.records@.len() ==> (#[trigger] self.records@[i]).consistent(
                        config.records@[i],
                        ip,
                    )
            },
        }
    }

    /// Whether the cycle succeeded: an address was detected and no write
    /// failed.
    pub open spec fn succeeded(self) -> bool {
        &&& self.detected is Some
        &&& forall|i: int|
            0 <= i < self.records@.len() ==> !((#[trigger] self.records@[i]).outcome is Failed)
    }

    /// The cycle's result: `Ok` exactly if it succeeded, and else the
    /// failure of the detection or the first write that failed.
    pub fn result(&self) -> (r: Result<(), CycleError>)
        ensures
            r is Ok <==> self.succeeded(),
            r == Err::<(), CycleError>(CycleError::DetectionFailure) <==> self.detected is None,
            r matches Err(CycleError::WriteFailed { name, reason }) ==> exists|i: int|
                0 <= i < self.records@.len() && (#[trigger] self.records@[i]).outcome
                    == ReconciliationOutcome::Failed(reason) && name@ == self.records@[i].name@
                    && forall|j: int|
                    0 <= j < i ==> !((#[trigger] self.records@[j]).outcome is Failed),
    {
        if self.detected.is_none() {
            return Err(CycleError::DetectionFailure);
        }
        let n: usize = self.records.len();
        let mut i: usize = 0;
        while i < n
            invariant
                i <= n,
                n == self.records@.len(),
                self.detected is Some,
                forall|j: int| 0 <= j < i ==> !((#[trigger] self.records@[j]).outcome is Failed),
            decreases n - i,
        {
            match &self.records[i].outcome {
                ReconciliationOutcome::Failed(reason) => {
                    let error = CycleError::WriteFailed {
                        name: self.records[i].name.clone(),
                        reason: reason.clone(),
                    };
                    return Err(error);
                },
                _ => {},
            }
            i = i + 1;
        }
        Ok(())
    }
}

/// In the account of a whole cycle a record is accounted as unchanged exactly
/// if it read as the detected address, and as written, updated or failed, in
/// every other case: no record that held the detected address was written,
/// and every other record was.
pub proof fn lemma_written_exactly_when_needed(report: CycleReport, config: Config, i: int)
    requires
        report.sound(config),
        report.detected is Some,
        0 <= i < report.records@.len(),
    ensures
        report.records@[i].outcome is Unchanged <==> report.records@[i].read == ReadOutcome::Found(
            report.detected->0,
        ),
        report.records@[i].outcome matches ReconciliationOutcome::Updated { previous, current }
            ==> current == report.detected->0,
        report.records@[i].read is NotFound || report.records@[i].read is Error
            ==> !(report.records@[i].outcome is Unchanged),
{
    assert(report.records@[i].consistent(config.records@[i], report.detected->0));
}

/// The step of a cycle at which a service is asked for the public address.
#[derive(Debug)]
pub struct Detecting<'a> {
    config: &'a Config,
    query: Query<'a>,
}

/// The step of a cycle at which a record is read.
#[derive(Debug)]
pub struct Reading<'a> {
    config: &'a Config,
    detected: Ipv4Address,
    index: usize,
    done: Vec<RecordReport>,
}

/// The step of a cycle at which a record is written.
#[derive(Debug)]
pub struct Writing<'a> {
    config: &'a Config,
    detected: Ipv4Address,
    index: usize,
    done: Vec<RecordReport>,
    read: ReadOutcome,
}

/// Where a cycle stands: at a request to make, or at its end.
#[derive(Debug)]
pub enum Step<'a> {
    /// A service is to be asked for the public address.
    Detect(Detecting<'a>),
    /// A record is to be read.
    Read(Reading<'a>),
    /// A record is to be written.
    Write(Writing<'a>),
    /// The cycle is over.
    Done(CycleReport),
}

/// Whether the accounts `done` are those of the first records of `config`,
/// in order, in a cycle with the detected address `detected`.
pub open spec fn accounts_of(done: Seq<RecordReport>, config: Config, detected: Ipv4Address) -> bool {
    &&& done.len() <= config.records@.len()
    &&& forall|i: int|
        0 <= i < done.len() ==> (#[trigger] done[i]).consistent(config.records@[i], detected)
}

impl<'a> Step<'a> {
    /// Whether this is the step that follows once the records before the
    /// one at `done.len()` have the accounts `done`: the reading of that
    /// record, or, if there is no such record, the end of the cycle, with
    /// these accounts.
    pub open spec fn continues(self, config: Config, detected: Ipv4Address, done: Seq<RecordReport>)
        -> bool {
        if done.len() < config.records@.len() {
            self matches Step::Read(next) && next.config() == config && next.detected() == detected
                && next.reports() == done
        } else {
            self matches Step::Done(report) && report.detected == Some(detected) && report.records@
                == done && report.sound(config)
        }
    }
}

/// The step over the records that follows the accounts `done`.
fn proceed<'a>(config: &'a Config, detected: Ipv4Address, done: Vec<RecordReport>) -> (r: Step<'a>)
    requires
        accounts_of(done@, *config, detected),
    ensures
        r.continues(*config, detected, done@),
{
    let n: usize = config.records.len();
    let index: usize = done.len();
    if index < n {
        Step::Read(Reading { config, detected, index, done })
    } else {
        Step::Done(CycleReport { detected: Some(detected), records: done })
    }
}

/// The step that follows where a detection stands.
fn after_detection<'a>(config: &'a Config, detection: Detection<'a>) -> (r: Step<'a>)
    ensures
        match detection {
            Detection::Found(ip) => r.continues(*config, ip, Seq::empty()),
            Detection::Query(q) => r matches Step::Detect(next) && next.config() == *config
                && next.query() == q,
            Detection::Exhausted => r matches Step::Done(report) && report.detected is None
                && report.records@.len() == 0,
        },
{
    match detection {
        Detection::Found(ip) => proceed(config, ip, Vec::new()),
        Detection::Query(query) => Step::Detect(Detecting { config, query }),
        Detection::Exhausted => Step::Done(CycleReport { detected: None, records: Vec::new() }),
    }
}

/// Starts a cycle over the records of `config`, with the services of
/// `detector` to detect the public address: at the first service, or, if
/// there is none, at the end of a failed cycle.
pub fn run_update<'a>(detector: &'a IpDetector, config: &'a Config) -> (r: Step<'a>)
    ensures
        detector.endpoints().len() > 0 ==> (r matches Step::Detect(first) && first.config()
            == *config && Detection::Query(first.query()) == detector.start()
            && first.query().detector() == *detector && first.query().position() == 0),
        detector.endpoints().len() == 0 ==> (r matches Step::Done(report) && report.detected
            is None && report.records@.len() == 0),
{
    let detection = detector.get_public_ip();
    after_detection(config, detection)
}

impl<'a> Detecting<'a> {
    /// The configuration that the cycle runs over.
    pub closed spec fn config(self) -> Config {
        *self.config
    }

    /// The service to ask.
    pub closed spec fn query(self) -> Query<'a> {
        self.query
    }

    /// The address of the service to ask.
    pub fn url(&self) -> (r: &'a str)
        ensures
            self.query().position() < self.query().detector().endpoints().len(),
            r@ == self.query().detector().endpoints()[self.query().position() as int],
    {
        self.query.url()
    }

    /// Takes what came of asking the service. An address starts the work on
    /// the records; without one the next service is asked; and when no
    /// service is left the cycle ends, failed, with no record touched.
    pub fn fetched(self, outcome: &FetchOutcome) -> (r: Step<'a>)
        ensures
            outcome.yields() matches Some(ip) ==> r.continues(self.config(), ip, Seq::empty()),
            outcome.yields() is None && self.query().position() + 1
                < self.query().detector().endpoints().len() ==> (r matches Step::Detect(next)
                && next.config() == self.config() && next.query().detector()
                == self.query().detector() && next.query().position() == self.query().position()
                + 1),
            outcome.yields() is None && self.query().position() + 1
                >= self.query().detector().endpoints().len() ==> (r matches Step::Done(report)
                && report.detected is None && report.records@.len() == 0),
    {
        let detection = self.query.resolve(outcome);
        after_detection(self.config, detection)
    }
}

impl<'a> Reading<'a> {
    #[verifier::type_invariant]
    spec fn well_formed(self) -> bool {
        &&& self.index < self.config.records@.len()
        &&& self.done@.len() == self.index
        &&& accounts_of(self.done@, *self.config, self.detected)
    }

    /// The configuration that the cycle runs over.
    pub closed spec fn config(self) -> Config {
        *self.config
    }

    /// The detected address.
    pub closed spec fn detected(self) -> Ipv4Address {
        self.detected
    }

    /// The accounts of the records before the one to read.
    pub closed spec fn reports(self) -> Seq<RecordReport> {
        self.done@
    }

    /// The place of the record to read among those of the configuration:
    /// the number of records that have their account.
    pub open spec fn position(self) -> int {
        self.reports().len() as int
    }

    /// The record to read.
    pub fn record(&self) -> (r: &'a DnsRecord)
        ensures
            0 <= self.position() < self.config().records@.len(),
            *r == self.config().records@[self.position()],
    {
        proof {
            use_type_invariant(self);
        }
        &self.config.records[self.index]
    }

    /// The address that was detected.
    pub fn ip(&self) -> (r: Ipv4Address)
        ensures
            r == self.detected(),
    {
        self.detected
    }

    /// The request to make: to read the record, by its zone and its name as
    /// they are configured.
    pub fn request(&self) -> (r: ReadRequest<'a>)
        ensures
            0 <= self.position() < self.config().records@.len(),
            r.hosted_zone_id@ == self.config().records@[self.position()].hosted_zone_id@,
            r.record_name@ == self.config().records@[self.position()].name@,
    {
        let record = self.record();
        ReadRequest {
            hosted_zone_id: record.hosted_zone_id.as_str(),
            record_name: record.name.as_str(),
        }
    }

    /// Takes what reading the record gave.
    ///
    /// Where the record holds the detected address, nothing is written: the
    /// record is accounted as unchanged and the cycle goes on to the next
    /// record or ends. In every other case, whether the record holds another
    /// address, does not exist or could not be read, the next step is to
    /// write this record.
    pub fn answered(self, outcome: ReadOutcome) -> (r: Step<'a>)
        ensures
            0 <= self.position() < self.config().records@.len(),
            outcome == ReadOutcome::Found(self.detected()) ==> !(r is Write),
            outcome is NotFound || outcome is Error ==> r is Write,
            !needs_write(outcome, self.detected()) ==> r.continues(
                self.config(),
                self.detected(),
                self.reports().push(
                    unchanged_account(
                        self.config().records@[self.position()],
                        outcome,
                        self.detected(),
                    ),
                ),
            ),
            needs_write(outcome, self.detected()) ==> (r matches Step::Write(next) && next.config()
                == self.config() && next.detected() == self.detected() && next.reports()
                == self.reports() && next.read() == outcome),
    {
        proof {
            use_type_invariant(&self);
        }
        if is_write_needed(&outcome, &self.detected) {
            Step::Write(
                Writing {
                    config: self.config,
                    detected: self.detected,
                    index: self.index,
                    done: self.done,
                    read: outcome,
                },
            )
        } else {
            let report = RecordReport {
                name: self.config.records[self.index].name.clone(),
                read: outcome,
                outcome: ReconciliationOutcome::Unchanged(self.detected),
            };
            let mut done = self.done;
            done.push(report);
            let next = proceed(self.config, self.detected, done);
            next
        }
    }
}

impl<'a> Writing<'a> {
    #[verifier::type_invariant]
    spec fn well_formed(self) -> bool {
        &&& self.index < self.config.records@.len()
        &&& self.done@.len() == self.index
        &&& accounts_of(self.done@, *self.config, self.detected)
        &&& needs_write(self.read, self.detected)
    }

    /// The configuration that the cycle runs over.
    pub closed spec fn config(self) -> Config {
        *self.config
    }

    /// The detected address.
    pub closed spec fn detected(self) -> Ipv4Address {
        self.detected
    }

    /// The accounts of the records before the one to write.
    pub closed spec fn reports(self) -> Seq<RecordReport> {
        self.done@
    }

    /// What reading the record gave.
    pub closed spec fn read(self) -> ReadOutcome {
        self.read
    }

    /// The place of the record to write among those of the configuration.
    pub open spec fn position(self) -> int {
        self.reports().len() as int
    }

    /// The record to write: its zone, its name and its time-to-live are
    /// those of the request.
    pub fn record(&self) -> (r: &'a DnsRecord)
        ensures
            0 <= self.position() < self.config().records@.len(),
            *r == self.config().records@[self.position()],
    {
        proof {
            use_type_invariant(self);
        }
        &self.config.records[self.index]
    }

    /// The address to write: the detected one.
    pub fn ip(&self) -> (r: Ipv4Address)
        ensures
            r == self.detected(),
            needs_write(self.read(), r),
    {
        proof {
            use_type_invariant(self);
        }
        self.detected
    }

    /// The request to make: to write the record, with its zone, its name and
    /// its time-to-live as they are configured, and with the detected
    /// address.
    pub fn request(&self) -> (r: UpsertRequest<'a>)
        ensures
            0 <= self.position() < self.config().records@.len(),
            r.hosted_zone_id@ == self.config().records@[self.position()].hosted_zone_id@,
            r.record_name@ == self.config().records@[self.position()].name@,
            r.ip == self.detected(),
            r.ttl == self.config().records@[self.position()].ttl,
    {
        let record = self.record();
        UpsertRequest {
            hosted_zone_id: record.hosted_zone_id.as_str(),
            record_name: record.name.as_str(),
            ip: self.detected,
            ttl: record.ttl,
        }
    }

    /// What reading the record gave.
    pub fn previous(&self) -> (r: &ReadOutcome)
        ensures
            *r == self.read(),
    {
        &self.read
    }

    /// Takes what writing the record gave. The record is accounted as
    /// updated or, if the write failed, as failed; it is not written again,
    /// and the cycle goes on to the next record or ends.
    pub fn acknowledged(self, outcome: WriteOutcome) -> (r: Step<'a>)
        ensures
            0 <= self.position() < self.config().records@.len(),
            !(r is Write),
            r.continues(
                self.config(),
                self.detected(),
                self.reports().push(
                    written_account(
                        self.config().records@[self.position()],
                        self.read(),
                        self.detected(),
                        outcome,
                    ),
                ),
            ),
    {
        proof {
            use_type_invariant(&self);
        }
        let previous = match &self.read {
            ReadOutcome::Found(ip) => Some(*ip),
            _ => None,
        };
        let result = match outcome {
            WriteOutcome::Ack(_) => ReconciliationOutcome::Updated {
                previous,
                current: self.detected,
            },
            WriteOutcome::Error(reason) => ReconciliationOutcome::Failed(reason),
        };
        let report = RecordReport {
            name: self.config.records[self.index].name.clone(),
            read: self.read,
            outcome: result,
        };
        let mut done = self.done;
        done.push(report);
        let next = proceed(self.config, self.detected, done);
        next
    }
}

} // verus!
