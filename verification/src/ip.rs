//! Finding the public address: a chain of services that each answer a
//! request with the address it came from, tried in order until one gives an
//! address.
//!
//! The requests themselves are the caller's to make. The chain says which
//! service to ask next, takes what came back, and says what follows from it:
//! the address, the next service, or that no service is left.

use crate::address::Ipv4Address;
use crate::text::{trim, trimmed};
use vstd::prelude::*;

verus! {

broadcast use vstd::string::group_string_axioms;

/// What came of one request to a service.
#[derive(Debug, Clone, PartialEq, Eq)]
pub enum FetchOutcome {
    /// No answer: the request could not be made or the body could not be
    /// read. The text says why.
    Failed(String),
    /// An answer, with its HTTP status and its body.
    Response { status: u16, body: String },
}

/// Why an outcome gives no address.
#[derive(Debug, Clone, PartialEq, Eq)]
pub enum FetchError {
    /// There was no answer; the text is that of the outcome.
    Request(String),
    /// The answer's status was not one of success.
    HttpStatus(u16),
    /// The body, without the white space around it, is no IPv4 address. The
    /// text is that body.
    InvalidAddress(String),
}

/// Whether an HTTP status is one of success: 200 to 299.
pub open spec fn success_status(status: u16) -> bool {
    200 <= status <= 299
}

/// Tells whether an HTTP status is one of success.
pub fn is_success_status(status: u16) -> (r: bool)
    ensures
        r == success_status(status),
{
    200 <= status && status <= 299
}

impl FetchOutcome {
    /// The address that the outcome gives: that which the body of an answer
    /// with a status of success holds, once the white space around it is
    /// removed.
    pub open spec fn yields(self) -> Option<Ipv4Address> {
        match self {
            FetchOutcome::Failed(_) => None,
            FetchOutcome::Response { status, body } => if success_status(status) {
                Ipv4Address::parsed(trimmed(body@))
            } else {
                None
            },
        }
    }

    /// Reads the address out of the outcome, or says why there is none.
    pub fn address(&self) -> (r: Result<Ipv4Address, FetchError>)
        ensures
            match r {
                Ok(ip) => self.yields() == Some(ip),
                Err(error) => self.yields() is None && match error {
                    FetchError::Request(reason) => (*self matches FetchOutcome::Failed(given)
                        && reason@ == given@),
                    FetchError::HttpStatus(code) => (*self matches FetchOutcome::Response {
                        status,
                        body,
                    } && code == status && !success_status(status)),
                    FetchError::InvalidAddress(text) => (*self matches FetchOutcome::Response {
                        status,
                        body,
                    } && success_status(status) && text@ == trimmed(body@)),
                },
            },
    {
        match self {
            FetchOutcome::Failed(reason) => Err(FetchError::Request(reason.clone())),
            FetchOutcome::Response { status, body } => {
                if !is_success_status(*status) {
                    return Err(FetchError::HttpStatus(*status));
                }
                let text = trim(body.as_str());
                match Ipv4Address::parse(text) {
                    Some(ip) => Ok(ip),
                    None => Err(FetchError::InvalidAddress(text.to_owned())),
                }
            },
        }
    }
}

/// The chain of services.
#[derive(Debug, Clone, PartialEq, Eq)]
pub struct IpDetector {
    services: Vec<String>,
}

/// One step of a detection: the service to ask now.
#[derive(Debug)]
pub struct Query<'a> {
    detector: &'a IpDetector,
    index: usize,
}

/// Where a detection stands.
#[derive(Debug)]
pub enum Detection<'a> {
    /// A service is to be asked.
    Query(Query<'a>),
    /// A service gave this address.
    Found(Ipv4Address),
    /// Every service was asked and none gave an address.
    Exhausted,
}

impl IpDetector {
    /// The addresses of the services, in the order in which they are asked.
    pub closed spec fn endpoints(self) -> Seq<Seq<char>> {
        Seq::new(self.services@.len(), |i: int| self.services@[i]@)
    }

    /// The chain of the five services that are asked by default.
    pub fn new() -> (detector: IpDetector)
        ensures
            detector.endpoints() == seq![
                "https://api.ipify.org"@,
                "https://icanhazip.com"@,
                "https://ifconfig.me/ip"@,
                "https://checkip.amazonaws.com"@,
                "https://ipecho.net/plain"@,
            ],
    {
        let mut services: Vec<String> = Vec::new();
        services.push("https://api.ipify.org".to_owned());
        services.push("https://icanhazip.com".to_owned());
        services.push("https://ifconfig.me/ip".to_owned());
        services.push("https://checkip.amazonaws.com".to_owned());
        services.push("https://ipecho.net/plain".to_owned());
        let detector = IpDetector { services };
        detector
    }

    /// A chain of the given services.
    pub fn with_services(services: Vec<String>) -> (detector: IpDetector)
        ensures
            detector.endpoints().len() == services@.len(),
            forall|i: int|
                0 <= i < services@.len() ==> detector.endpoints()[i] == (#[trigger] services@[i])@,
    {
        IpDetector { services }
    }

    /// The addresses of the services, in the order in which they are asked.
    pub fn services(&self) -> (r: &Vec<String>)
        ensures
            r@.len() == self.endpoints().len(),
            forall|i: int| 0 <= i < r@.len() ==> (#[trigger] r@[i])@ == self.endpoints()[i],
    {
        &self.services
    }

    /// The time, in seconds, after which a request to a service is given up.
    pub fn timeout_secs(&self) -> (r: u64)
        ensures
            r == 10,
    {
        10
    }

    /// Where a detection starts: at the first service, or, if the chain has
    /// no service, at its end.
    pub closed spec fn start(&self) -> Detection<'_> {
        if self.services@.len() == 0 {
            Detection::Exhausted
        } else {
            Detection::Query(Query { detector: self, index: 0 })
        }
    }

    /// Starts a detection.
    pub fn get_public_ip(&self) -> (r: Detection<'_>)
        ensures
            r == self.start(),
            self.endpoints().len() == 0 ==> r is Exhausted,
            self.endpoints().len() > 0 ==> (r matches Detection::Query(q) && q.detector() == *self
                && q.position() == 0),
    {
        if self.services.len() == 0 {
            Detection::Exhausted
        } else {
            Detection::Query(Query { detector: self, index: 0 })
        }
    }
}

impl<'a> Query<'a> {
    #[verifier::type_invariant]
    spec fn in_range(self) -> bool {
        self.index < self.detector.services@.len()
    }

    /// The chain that the query belongs to.
    pub closed spec fn detector(self) -> IpDetector {
        *self.detector
    }

    /// The place in the chain of the service to ask.
    pub closed spec fn position(self) -> nat {
        self.index as nat
    }

    /// The place in the chain of the service to ask, counted from 0.
    pub fn index(&self) -> (r: usize)
        ensures
            r == self.position(),
            r < self.detector().endpoints().len(),
    {
        proof {
            use_type_invariant(self);
        }
        self.index
    }

    /// The address of the service to ask.
    pub fn url(&self) -> (r: &'a str)
        ensures
            self.position() < self.detector().endpoints().len(),
            r@ == self.detector().endpoints()[self.position() as int],
    {
        proof {
            use_type_invariant(self);
        }
        self.detector.services[self.index].as_str()
    }

    /// Where the detection stands once the service has been asked and
    /// `outcome` came of it.
    pub closed spec fn step(self, outcome: FetchOutcome) -> Detection<'a> {
        match outcome.yields() {
            Some(ip) => Detection::Found(ip),
            None => if self.index + 1 < self.detector.services@.len() {
                Detection::Query(Query { detector: self.detector, index: (self.index + 1) as usize })
            } else {
                Detection::Exhausted
            },
        }
    }

    /// Takes what came of asking the service. An address ends the detection;
    /// anything else leads to the next service, or, after the last one, to
    /// the end without an address.
    pub fn resolve(self, outcome: &FetchOutcome) -> (r: Detection<'a>)
        ensures
            r == self.step(*outcome),
            outcome.yields() matches Some(ip) ==> r == Detection::Found(ip),
            outcome.yields() is None && self.position() + 1 < self.detector().endpoints().len()
                ==> (r matches Detection::Query(q) && q.detector() == self.detector()
                && q.position() == self.position() + 1),
            outcome.yields() is None && self.position() + 1 >= self.detector().endpoints().len()
                ==> r is Exhausted,
    {
        proof {
            use_type_invariant(&self);
        }
        match outcome.address() {
            Ok(ip) => Detection::Found(ip),
            Err(_) => {
                let n: usize = self.detector.services.len();
                if self.index + 1 < n {
                    Detection::Query(Query { detector: self.detector, index: self.index + 1 })
                } else {
                    Detection::Exhausted
                }
            },
        }
    }
}

impl<'a> Detection<'a> {
    /// Where the detection stands once the services that it asks, one after
    /// the other, have given `outcomes` in this order. Outcomes left over
    /// when the detection has ended are not looked at.
    pub open spec fn after(self, outcomes: Seq<FetchOutcome>) -> Detection<'a>
        decreases outcomes.len(),
    {
        match self {
            Detection::Query(q) => if outcomes.len() > 0 {
                q.step(outcomes.first()).after(outcomes.drop_first())
            } else {
                self
            },
            _ => self,
        }
    }

    /// How many of `outcomes` the detection takes before it ends or they run
    /// out: the number of services that are asked.
    pub open spec fn asked(self, outcomes: Seq<FetchOutcome>) -> nat
        decreases outcomes.len(),
    {
        match self {
            Detection::Query(q) => if outcomes.len() > 0 {
                1 + q.step(outcomes.first()).asked(outcomes.drop_first())
            } else {
                0
            },
            _ => 0,
        }
    }
}

/// A detection gives the address of the first service that gives one, and
/// asks no service after it: where the service at `i` is the first whose
/// outcome holds an address, the detection ends with that address after
/// `i + 1` requests, whatever `outcomes` holds behind it.
pub proof fn lemma_first_address_wins(detector: IpDetector, outcomes: Seq<FetchOutcome>, i: int)
    requires
        0 <= i < outcomes.len(),
        i < detector.endpoints().len(),
        outcomes[i].yields() is Some,
        forall|j: int| 0 <= j < i ==> (#[trigger] outcomes[j]).yields() is None,
    ensures
        detector.start().after(outcomes) == Detection::Found(outcomes[i].yields()->0),
        detector.start().asked(outcomes) == i + 1,
{
    lemma_from(detector, 0, outcomes, i);
}

/// Where no service gives an address, the detection gives none: it ends
/// without one once every service was asked, and until then it asks the
/// next service.
pub proof fn lemma_no_address_without_success(detector: IpDetector, outcomes: Seq<FetchOutcome>)
    requires
        forall|j: int| 0 <= j < outcomes.len() ==> (#[trigger] outcomes[j]).yields() is None,
    ensures
        !(detector.start().after(outcomes) is Found),
        outcomes.len() >= detector.endpoints().len() ==> detector.start().after(outcomes)
            is Exhausted,
        outcomes.len() < detector.endpoints().len() ==> (detector.start().after(
            outcomes,
        ) matches Detection::Query(q) && q.detector() == detector && q.position()
            == outcomes.len()),
        detector.start().asked(outcomes) == if outcomes.len() < detector.endpoints().len() {
            outcomes.len()
        } else {
            detector.endpoints().len()
        },
{
    assert(detector.services.len() == detector.services@.len());
    if detector.services@.len() > 0 {
        lemma_failures_from(detector, 0, outcomes);
        if outcomes.len() < detector.services@.len() {
            let q = Query { detector: &detector, index: outcomes.len() as usize };
            assert(detector.start().after(outcomes) == Detection::Query(q));
            assert(q.position() == outcomes.len());
        }
    }
}

proof fn lemma_from(detector: IpDetector, at: int, outcomes: Seq<FetchOutcome>, i: int)
    requires
        0 <= at,
        0 <= i < outcomes.len(),
        at + i < detector.services@.len(),
        outcomes[i].yields() is Some,
        forall|j: int| 0 <= j < i ==> (#[trigger] outcomes[j]).yields() is None,
    ensures
        (Detection::Query(Query { detector: &detector, index: at as usize })).after(outcomes)
            == Detection::Found(outcomes[i].yields()->0),
        (Detection::Query(Query { detector: &detector, index: at as usize })).asked(outcomes) == i
            + 1,
        at == 0 ==> detector.start() == Detection::Query(
            Query { detector: &detector, index: at as usize },
        ),
    decreases i,
{
    assert(detector.services.len() == detector.services@.len());
    let q = Query { detector: &detector, index: at as usize };
    let rest = outcomes.drop_first();
    if i == 0 {
        let found = Detection::Found(outcomes[0].yields()->0);
        assert(q.step(outcomes.first()) == found);
        assert(found.after(rest) == found);
        assert(found.asked(rest) == 0);
    } else {
        assert(outcomes.first().yields() is None);
        assert forall|j: int| 0 <= j < i - 1 implies (#[trigger] rest[j]).yields() is None by {
            assert(rest[j] == outcomes[j + 1]);
        }
        assert(rest[i - 1] == outcomes[i]);
        lemma_from(detector, at + 1, rest, i - 1);
    }
}

proof fn lemma_failures_from(detector: IpDetector, at: int, outcomes: Seq<FetchOutcome>)
    requires
        0 <= at < detector.services@.len(),
        forall|j: int| 0 <= j < outcomes.len() ==> (#[trigger] outcomes[j]).yields() is None,
    ensures
        ({
            let from = Detection::Query(Query { detector: &detector, index: at as usize });
            let left = detector.services@.len() - at;
            &&& outcomes.len() >= left ==> from.after(outcomes) is Exhausted
            &&& outcomes.len() < left ==> from.after(outcomes) == Detection::Query(
                Query { detector: &detector, index: (at + outcomes.len()) as usize },
            )
            &&& from.asked(outcomes) == if outcomes.len() < left {
                outcomes.len() as int
            } else {
                left
            }
        }),
    decreases outcomes.len(),
{
    assert(detector.services.len() == detector.services@.len());
    let q = Query { detector: &detector, index: at as usize };
    if outcomes.len() > 0 {
        let rest = outcomes.drop_first();
        assert(outcomes.first().yields() is None);
        assert forall|j: int| 0 <= j < rest.len() implies (#[trigger] rest[j]).yields() is None by {
            assert(rest[j] == outcomes[j + 1]);
        }
        if at + 1 < detector.services@.len() {
            lemma_failures_from(detector, at + 1, rest);
        } else {
            assert(q.step(outcomes.first()) is Exhausted);
            assert(Detection::Exhausted.after(rest) is Exhausted);
            assert(Detection::Exhausted.asked(rest) == 0);
        }
    }
}

} // verus!
