//! Keeps DNS `A` records pointed at the public IPv4 address of the machine
//! it runs on.
//!
//! The library holds what is decided in doing so: how the public address is
//! read out of what the services answer, which record of a zone answers for
//! a name, which records are written and with what, and what follows a
//! cycle. The requests themselves, to the services and to the provider, are
//! made by the program around it, which hands over what came back and is
//! told what to do next.

pub mod address;
pub mod cli;
pub mod config;
pub mod dns;
pub mod ip;
pub mod propagation;
pub mod reconcile;
pub mod schedule;
pub mod text;
pub mod wizard;

pub use address::Ipv4Address;
pub use cli::{Cli, Command, UsageError};
pub use config::{default_ttl, AwsConfig, Config, ConfigError, DnsRecord, RecordFault};
pub use dns::{
    ChangeRequest, CredentialSource, DnsUpdater, MockDnsUpdater, ReadError, ReadOutcome,
    ResourceRecordSet, Timestamp, WriteOutcome,
};
pub use ip::{Detection, FetchError, FetchOutcome, IpDetector, Query};
pub use propagation::{wait_for_propagation, PollOutcome, Polling, Propagation};
pub use reconcile::{
    run_update, CycleError, CycleReport, Detecting, ReadRequest, Reading, ReconciliationOutcome,
    RecordReport, Step, UpsertRequest, Writing,
};
pub use schedule::{Next, Scheduler};
pub use wizard::{
    create_config_interactively, Answers, Question, RecordAnswer, Wizard, WizardError, WizardStep,
};
