//! The configuration: the records to keep up to date and the credentials
//! for the provider.
//!
//! Reading the file and taking its text apart is left to the caller; what is
//! here are the values, their defaults, and the rules a configuration has to
//! meet before the records in it are reconciled.

use crate::text::contains_char;
use vstd::prelude::*;
use vstd::string::StringExecFns;

verus! {

broadcast use vstd::string::group_string_axioms;

/// The time-to-live, in seconds, of a record that states none.
pub fn default_ttl() -> (ttl: i64)
    ensures
        ttl == 300,
{
    300
}

/// One `A` record to keep pointed at the public address.
#[derive(Debug, Clone, PartialEq, Eq)]
pub struct DnsRecord {
    /// The record's domain name.
    pub name: String,
    /// The provider's identifier of the zone that holds the record.
    pub hosted_zone_id: String,
    /// The record's time-to-live, in seconds.
    pub ttl: i64,
}

/// The key pair for the provider. An empty text stands for a part that was
/// not configured.
#[derive(Debug, Clone, PartialEq, Eq)]
pub struct AwsConfig {
    pub access_key_id: String,
    pub secret_access_key: String,
}

/// The whole configuration.
#[derive(Debug, Clone, PartialEq, Eq)]
pub struct Config {
    /// The records, in the order in which they are reconciled.
    pub records: Vec<DnsRecord>,
    pub aws: AwsConfig,
}

/// What is wrong with a record.
#[derive(Debug, Clone, Copy, PartialEq, Eq, Structural)]
pub enum RecordFault {
    /// The name is empty.
    EmptyName,
    /// The name has no dot between labels.
    NameWithoutSeparator,
    /// The zone identifier is empty.
    EmptyHostedZoneId,
    /// The time-to-live is zero or negative.
    NonPositiveTtl,
}

/// Why a configuration is refused.
#[derive(Debug, Clone, PartialEq, Eq)]
pub enum ConfigError {
    /// There is no record at all.
    NoRecords,
    /// The record at `index`, called `name`, is the first that has a fault,
    /// and `fault` is the first of its faults.
    InvalidRecord { index: usize, name: String, fault: RecordFault },
}

impl ConfigError {
    /// The error in words.
    pub open spec fn message_text(self) -> Seq<char> {
        match self {
            ConfigError::NoRecords => "No DNS records configured"@,
            ConfigError::InvalidRecord { index, name, fault } => match fault {
                RecordFault::EmptyName => "DNS record name cannot be empty"@,
                RecordFault::NameWithoutSeparator => "DNS record name has no label separator: "@
                    + name@,
                RecordFault::EmptyHostedZoneId => "Hosted zone ID cannot be empty for record: "@
                    + name@,
                RecordFault::NonPositiveTtl => "TTL must be positive for record: "@ + name@,
            },
        }
    }

    /// Writes the error in words.
    pub fn message(&self) -> (r: String)
        ensures
            r@ == self.message_text(),
    {
        match self {
            ConfigError::NoRecords => "No DNS records configured".to_owned(),
            ConfigError::InvalidRecord { index, name, fault } => match fault {
                RecordFault::EmptyName => "DNS record name cannot be empty".to_owned(),
                RecordFault::NameWithoutSeparator => "DNS record name has no label separator: "
                    .to_owned().concat(name.as_str()),
                RecordFault::EmptyHostedZoneId => "Hosted zone ID cannot be empty for record: "
                    .to_owned().concat(name.as_str()),
                RecordFault::NonPositiveTtl => "TTL must be positive for record: ".to_owned().concat(
                    name.as_str(),
                ),
            },
        }
    }
}

impl DnsRecord {
    /// The first fault of the record, in the order name, zone, time-to-live,
    /// if it has one.
    pub open spec fn fault(self) -> Option<RecordFault> {
        if self.name@.len() == 0 {
            Some(RecordFault::EmptyName)
        } else if !self.name@.contains('.') {
            Some(RecordFault::NameWithoutSeparator)
        } else if self.hosted_zone_id@.len() == 0 {
            Some(RecordFault::EmptyHostedZoneId)
        } else if self.ttl <= 0 {
            Some(RecordFault::NonPositiveTtl)
        } else {
            None
        }
    }

    /// A record is valid if its name is not empty and has a dot between
    /// labels, its zone identifier is not empty, and its time-to-live is
    /// positive.
    pub open spec fn valid(self) -> bool {
        &&& self.name@.len() > 0
        &&& self.name@.contains('.')
        &&& self.hosted_zone_id@.len() > 0
        &&& self.ttl > 0
    }

    /// Looks for a fault in the record.
    pub fn check(&self) -> (r: Option<RecordFault>)
        ensures
            r == self.fault(),
            r is None <==> self.valid(),
    {
        if self.name.as_str().is_empty() {
            Some(RecordFault::EmptyName)
        } else if !contains_char(self.name.as_str(), '.') {
            Some(RecordFault::NameWithoutSeparator)
        } else if self.hosted_zone_id.as_str().is_empty() {
            Some(RecordFault::EmptyHostedZoneId)
        } else if self.ttl <= 0 {
            Some(RecordFault::NonPositiveTtl)
        } else {
            None
        }
    }
}

impl AwsConfig {
    /// The provider's region that requests are sent to.
    pub fn region(&self) -> (r: String)
        ensures
            r@ == "us-east-1"@,
    {
        "us-east-1".to_owned()
    }

    /// Whether both parts of the key pair were configured.
    pub open spec fn has_key_pair(self) -> bool {
        self.access_key_id@.len() > 0 && self.secret_access_key@.len() > 0
    }
}

impl Config {
    /// A configuration is valid if it names at least one record and each of
    /// its records is valid.
    pub open spec fn valid(self) -> bool {
        &&& self.records@.len() > 0
        &&& forall|i: int| 0 <= i < self.records@.len() ==> (#[trigger] self.records@[i]).valid()
    }

    /// Checks the configuration: `Ok` exactly if it is valid, and else the
    /// first thing that is wrong with it, going through the records in
    /// order.
    pub fn validate(&self) -> (r: Result<(), ConfigError>)
        ensures
            r is Ok <==> self.valid(),
            r == Err::<(), ConfigError>(ConfigError::NoRecords) <==> self.records@.len() == 0,
            r matches Err(ConfigError::InvalidRecord { index, name, fault }) ==> {
                &&& index < self.records@.len()
                &&& name@ == self.records@[index as int].name@
                &&& self.records@[index as int].fault() == Some(fault)
                &&& forall|j: int| 0 <= j < index ==> (#[trigger] self.records@[j]).valid()
            },
    {
        let n: usize = self.records.len();
        if n == 0 {
            return Err(ConfigError::NoRecords);
        }
        let mut i: usize = 0;
        while i < n
            invariant
                i <= n,
                n == self.records@.len(),
                forall|j: int| 0 <= j < i ==> (#[trigger] self.records@[j]).valid(),
            decreases n - i,
        {
            match self.records[i].check() {
                Some(fault) => {
                    let name = self.records[i].name.clone();
                    return Err(ConfigError::InvalidRecord { index: i, name, fault });
                },
                None => {},
            }
            i = i + 1;
        }
        Ok(())
    }
}

impl Default for Config {
    /// A configuration to start from: one record and a key pair, each to be
    /// replaced by the reader's own.
    fn default() -> (config: Config)
        ensures
            config.records@.len() == 1,
            config.records@[0].name@ == "example.com"@,
            config.records@[0].hosted_zone_id@ == "Z1234567890ABC"@,
            config.records@[0].ttl == 300,
            config.aws.access_key_id@ == "AKIA..."@,
            config.aws.secret_access_key@ == "..."@,
    {
        let mut records: Vec<DnsRecord> = Vec::new();
        records.push(
            DnsRecord {
                name: "example.com".to_owned(),
                hosted_zone_id: "Z1234567890ABC".to_owned(),
                ttl: 300,
            },
        );
        Config {
            records,
            aws: AwsConfig {
                access_key_id: "AKIA...".to_owned(),
                secret_access_key: "...".to_owned(),
            },
        }
    }
}

} // verus!
