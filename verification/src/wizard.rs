//! Writing a new configuration from the answers to a row of questions.
//!
//! Putting the questions and reading the answers is the caller's part. The
//! wizard says which question comes next, takes the line that was read as
//! its answer, and in the end gives the answers and the text of the
//! configuration file that holds them.

use crate::text::{
    decimal, decimal_string, parse_i32, parse_usize, parsed_i32, parsed_usize, signed_decimal,
    signed_decimal_string, trim, trimmed,
};
use vstd::prelude::*;
use vstd::string::StringExecFns;

verus! {

broadcast use vstd::string::group_string_axioms;

/// The time-to-live, in seconds, of a record for which the question is left
/// without an answer.
pub const DEFAULT_TTL_ANSWER: i32 = 300;

/// A question of the wizard.
#[derive(Debug, Clone, Copy, PartialEq, Eq, Structural)]
pub enum Question {
    Region,
    AccessKeyId,
    SecretAccessKey,
    RecordCount,
    HostedZoneId,
    RecordName,
    Ttl,
}

/// The answers for one record.
#[derive(Debug, Clone, PartialEq, Eq)]
pub struct RecordAnswer {
    pub hosted_zone_id: String,
    pub name: String,
    pub ttl: i32,
}

/// All the answers.
#[derive(Debug, Clone, PartialEq, Eq)]
pub struct Answers {
    pub region: String,
    pub access_key_id: String,
    pub secret_access_key: String,
    pub records: Vec<RecordAnswer>,
}

/// Why the wizard gave up. The text is the answer, without the white space
/// around it.
#[derive(Debug, Clone, PartialEq, Eq)]
pub enum WizardError {
    /// The answer to the number of records is no such number.
    InvalidCount(String),
    /// The answer to a time-to-live is no number.
    InvalidTtl(String),
}

/// The wizard at a question: the question and the answers so far.
#[derive(Debug, Clone, PartialEq, Eq)]
pub struct Wizard {
    /// The question to put.
    pub question: Question,
    pub region: String,
    pub access_key_id: String,
    pub secret_access_key: String,
    /// The number of records that are asked for.
    pub count: usize,
    /// The zone of the record that is being asked for.
    pub hosted_zone_id: String,
    /// The name of the record that is being asked for.
    pub name: String,
    /// The records that were asked for in full.
    pub records: Vec<RecordAnswer>,
}

/// Where the wizard stands.
#[derive(Debug, Clone, PartialEq, Eq)]
pub enum WizardStep {
    /// A question is to be put.
    Ask(Wizard),
    /// Every question was answered.
    Done(Answers),
    /// An answer could not be used.
    Failed(WizardError),
}

/// The answers for one record, as values.
pub struct RecordAnswerView {
    pub hosted_zone_id: Seq<char>,
    pub name: Seq<char>,
    pub ttl: i32,
}

/// All the answers, as values.
pub struct AnswersView {
    pub region: Seq<char>,
    pub access_key_id: Seq<char>,
    pub secret_access_key: Seq<char>,
    pub records: Seq<RecordAnswerView>,
}

/// The wizard at a question, as values.
pub struct WizardView {
    pub question: Question,
    pub region: Seq<char>,
    pub access_key_id: Seq<char>,
    pub secret_access_key: Seq<char>,
    pub count: usize,
    pub hosted_zone_id: Seq<char>,
    pub name: Seq<char>,
    pub records: Seq<RecordAnswerView>,
}

/// Why the wizard gave up, as values.
pub enum WizardErrorView {
    InvalidCount(Seq<char>),
    InvalidTtl(Seq<char>),
}

/// Where the wizard stands, as values.
pub enum WizardStepView {
    Ask(WizardView),
    Done(AnswersView),
    Failed(WizardErrorView),
}

/// The answers for the records of a list, as values.
pub open spec fn record_views(records: Seq<RecordAnswer>) -> Seq<RecordAnswerView> {
    Seq::new(records.len(), |i: int| records[i]@)
}

impl View for RecordAnswer {
    type V = RecordAnswerView;

    open spec fn view(&self) -> RecordAnswerView {
        RecordAnswerView { hosted_zone_id: self.hosted_zone_id@, name: self.name@, ttl: self.ttl }
    }
}

impl View for Answers {
    type V = AnswersView;

    open spec fn view(&self) -> AnswersView {
        AnswersView {
            region: self.region@,
            access_key_id: self.access_key_id@,
            secret_access_key: self.secret_access_key@,
            records: record_views(self.records@),
        }
    }
}

impl View for Wizard {
    type V = WizardView;

    open spec fn view(&self) -> WizardView {
        WizardView {
            question: self.question,
            region: self.region@,
            access_key_id: self.access_key_id@,
            secret_access_key: self.secret_access_key@,
            count: self.count,
            hosted_zone_id: self.hosted_zone_id@,
            name: self.name@,
            records: record_views(self.records@),
        }
    }
}

impl View for WizardError {
    type V = WizardErrorView;

    open spec fn view(&self) -> WizardErrorView {
        match self {
            WizardError::InvalidCount(text) => WizardErrorView::InvalidCount(text@),
            WizardError::InvalidTtl(text) => WizardErrorView::InvalidTtl(text@),
        }
    }
}

impl View for WizardStep {
    type V = WizardStepView;

    open spec fn view(&self) -> WizardStepView {
        match self {
            WizardStep::Ask(wizard) => WizardStepView::Ask(wizard@),
            WizardStep::Done(answers) => WizardStepView::Done(answers@),
            WizardStep::Failed(error) => WizardStepView::Failed(error@),
        }
    }
}

impl RecordAnswerView {
    /// The part of the configuration file that holds the record.
    pub open spec fn text(self) -> Seq<char> {
        "\n[[records]]\nhosted_zone_id = \""@ + self.hosted_zone_id + "\"\nname = \""@ + self.name
            + "\"\nttl = "@ + signed_decimal(self.ttl as int)
    }
}

/// The part of the configuration file that holds the records.
pub open spec fn records_text(records: Seq<RecordAnswerView>) -> Seq<char>
    decreases records.len(),
{
    if records.len() == 0 {
        Seq::empty()
    } else {
        records_text(records.drop_last()) + records.last().text()
    }
}

impl AnswersView {
    /// Whether both parts of the key pair were given.
    pub open spec fn has_key_pair(self) -> bool {
        self.access_key_id.len() > 0 && self.secret_access_key.len() > 0
    }

    /// The part of the configuration file that holds the key pair: nothing
    /// unless both of its parts were given.
    pub open spec fn key_pair_text(self) -> Seq<char> {
        if self.has_key_pair() {
            "access_key_id = \""@ + self.access_key_id + "\"\nsecret_access_key = \""@
                + self.secret_access_key + "\"\n"@
        } else {
            Seq::empty()
        }
    }

    /// The text of the configuration file that holds the answers.
    pub open spec fn text(self) -> Seq<char> {
        "[aws]\nregion = \""@ + self.region + "\"\n"@ + self.key_pair_text() + records_text(
            self.records,
        )
    }
}

impl WizardView {
    /// The answers of a wizard that has put its last question.
    pub open spec fn answers(self, records: Seq<RecordAnswerView>) -> AnswersView {
        AnswersView {
            region: self.region,
            access_key_id: self.access_key_id,
            secret_access_key: self.secret_access_key,
            records,
        }
    }

    /// Where the wizard stands once `records` are asked for in full: at the
    /// zone of the next record, or, if as many as were asked for are there,
    /// at its end.
    pub open spec fn proceed(self, records: Seq<RecordAnswerView>) -> WizardStepView {
        if records.len() < self.count {
            WizardStepView::Ask(
                WizardView { question: Question::HostedZoneId, records, ..self },
            )
        } else {
            WizardStepView::Done(self.answers(records))
        }
    }

    /// Where the wizard stands once `line` was read as the answer to its
    /// question. What counts of the line is what is left when the white
    /// space around it is removed.
    pub open spec fn answer(self, line: Seq<char>) -> WizardStepView {
        let text = trimmed(line);
        match self.question {
            Question::Region => WizardStepView::Ask(
                WizardView { question: Question::AccessKeyId, region: text, ..self },
            ),
            Question::AccessKeyId => WizardStepView::Ask(
                WizardView { question: Question::SecretAccessKey, access_key_id: text, ..self },
            ),
            Question::SecretAccessKey => WizardStepView::Ask(
                WizardView { question: Question::RecordCount, secret_access_key: text, ..self },
            ),
            Question::RecordCount => match parsed_usize(text) {
                Some(count) => (WizardView { count, ..self }).proceed(self.records),
                None => WizardStepView::Failed(WizardErrorView::InvalidCount(text)),
            },
            Question::HostedZoneId => WizardStepView::Ask(
                WizardView { question: Question::RecordName, hosted_zone_id: text, ..self },
            ),
            Question::RecordName => WizardStepView::Ask(
                WizardView { question: Question::Ttl, name: text, ..self },
            ),
            Question::Ttl => {
                let ttl = if text.len() == 0 {
                    Some(DEFAULT_TTL_ANSWER)
                } else {
                    parsed_i32(text)
                };
                match ttl {
                    Some(ttl) => self.proceed(
                        self.records.push(
                            RecordAnswerView {
                                hosted_zone_id: self.hosted_zone_id,
                                name: self.name,
                                ttl,
                            },
                        ),
                    ),
                    None => WizardStepView::Failed(WizardErrorView::InvalidTtl(text)),
                }
            },
        }
    }

    /// What is put before the answer is read: the question, and before it
    /// the heading of the part that it opens, if it opens one.
    pub open spec fn prompt(self) -> Seq<char> {
        match self.question {
            Question::Region => "AWS Configuration:\nAWS Region (e.g., us-east-1): "@,
            Question::AccessKeyId =>
                "AWS Access Key ID (optional, leave empty to use default credentials): "@,
            Question::SecretAccessKey =>
                "AWS Secret Access Key (optional, leave empty to use default credentials): "@,
            Question::RecordCount =>
                "\nDNS Records Configuration:\nHow many DNS records do you want to configure? "@,
            Question::HostedZoneId => "\nRecord "@ + decimal(self.records.len() + 1)
                + ":\nHosted Zone ID: "@,
            Question::RecordName => "Record name (e.g., home.example.com): "@,
            Question::Ttl => "TTL in seconds (default 300): "@,
        }
    }
}

/// Writes the part of the configuration file that holds one record.
fn record_string(record: &RecordAnswer) -> (r: String)
    ensures
        r@ == record@.text(),
{
    let mut r = "\n[[records]]\nhosted_zone_id = \"".to_owned();
    r.append(record.hosted_zone_id.as_str());
    r.append("\"\nname = \"");
    r.append(record.name.as_str());
    r.append("\"\nttl = ");
    r.append(signed_decimal_string(record.ttl as i64).as_str());
    r
}

impl Answers {
    /// Writes the text of the configuration file that holds the answers.
    pub fn render(&self) -> (r: String)
        ensures
            r@ == self@.text(),
    {
        let mut r = "[aws]\nregion = \"".to_owned();
        r.append(self.region.as_str());
        r.append("\"\n");
        if !self.access_key_id.as_str().is_empty() && !self.secret_access_key.as_str().is_empty() {
            r.append("access_key_id = \"");
            r.append(self.access_key_id.as_str());
            r.append("\"\nsecret_access_key = \"");
            r.append(self.secret_access_key.as_str());
            r.append("\"\n");
        }
        let ghost head = r@;
        let n: usize = self.records.len();
        let mut i: usize = 0;
        while i < n
            invariant
                i <= n,
                n == self.records@.len(),
                r@ == head + records_text(record_views(self.records@).take(i as int)),
            decreases n - i,
        {
            let part = record_string(&self.records[i]);
            r.append(part.as_str());
            proof {
                let all = record_views(self.records@);
                assert(all.take(i + 1).drop_last() =~= all.take(i as int));
            }
            i = i + 1;
        }
        assert(record_views(self.records@).take(n as int) =~= record_views(self.records@));
        r
    }
}

/// Starts the wizard: at its first question, with no answer yet.
pub fn create_config_interactively() -> (wizard: Wizard)
    ensures
        wizard@ == (WizardView {
            question: Question::Region,
            region: Seq::empty(),
            access_key_id: Seq::empty(),
            secret_access_key: Seq::empty(),
            count: 0,
            hosted_zone_id: Seq::empty(),
            name: Seq::empty(),
            records: Seq::empty(),
        }),
{
    let wizard = Wizard {
        question: Question::Region,
        region: String::new(),
        access_key_id: String::new(),
        secret_access_key: String::new(),
        count: 0,
        hosted_zone_id: String::new(),
        name: String::new(),
        records: Vec::new(),
    };
    assert(record_views(wizard.records@) =~= Seq::empty());
    wizard
}

impl Wizard {
    /// Where the wizard stands once its records are asked for in full.
    fn proceed(self) -> (r: WizardStep)
        ensures
            r@ == self@.proceed(self@.records),
    {
        if self.records.len() < self.count {
            WizardStep::Ask(Wizard { question: Question::HostedZoneId, ..self })
        } else {
            WizardStep::Done(
                Answers {
                    region: self.region,
                    access_key_id: self.access_key_id,
                    secret_access_key: self.secret_access_key,
                    records: self.records,
                },
            )
        }
    }

    /// Writes what is to be put before the answer is read.
    pub fn prompt(&self) -> (r: String)
        ensures
            r@ == self@.prompt(),
    {
        match self.question {
            Question::Region => "AWS Configuration:\nAWS Region (e.g., us-east-1): ".to_owned(),
            Question::AccessKeyId =>
                "AWS Access Key ID (optional, leave empty to use default credentials): ".to_owned(),
            Question::SecretAccessKey =>
                "AWS Secret Access Key (optional, leave empty to use default credentials): "
                    .to_owned(),
            Question::RecordCount =>
                "\nDNS Records Configuration:\nHow many DNS records do you want to configure? "
                    .to_owned(),
            Question::HostedZoneId => {
                let made: usize = self.records.len();
                let mut r = "\nRecord ".to_owned();
                r.append(decimal_string((made as u128) + 1).as_str());
                r.append(":\nHosted Zone ID: ");
                r
            },
            Question::RecordName => "Record name (e.g., home.example.com): ".to_owned(),
            Question::Ttl => "TTL in seconds (default 300): ".to_owned(),
        }
    }

    /// Takes the line that was read as the answer to the question.
    pub fn answer(self, line: &str) -> (r: WizardStep)
        ensures
            r@ == self@.answer(line@),
    {
        let text = trim(line);
        match self.question {
            Question::Region => WizardStep::Ask(
                Wizard { question: Question::AccessKeyId, region: text.to_owned(), ..self },
            ),
            Question::AccessKeyId => WizardStep::Ask(
                Wizard {
                    question: Question::SecretAccessKey,
                    access_key_id: text.to_owned(),
                    ..self
                },
            ),
            Question::SecretAccessKey => WizardStep::Ask(
                Wizard {
                    question: Question::RecordCount,
                    secret_access_key: text.to_owned(),
                    ..self
                },
            ),
            Question::RecordCount => match parse_usize(text) {
                Some(count) => (Wizard { count, ..self }).proceed(),
                None => WizardStep::Failed(WizardError::InvalidCount(text.to_owned())),
            },
            Question::HostedZoneId => WizardStep::Ask(
                Wizard { question: Question::RecordName, hosted_zone_id: text.to_owned(), ..self },
            ),
            Question::RecordName => WizardStep::Ask(
                Wizard { question: Question::Ttl, name: text.to_owned(), ..self },
            ),
            Question::Ttl => {
                let ttl = if text.is_empty() {
                    Some(DEFAULT_TTL_ANSWER)
                } else {
                    parse_i32(text)
                };
                match ttl {
                    Some(ttl) => {
                        let ghost before = self@;
                        let record = RecordAnswer {
                            hosted_zone_id: self.hosted_zone_id.clone(),
                            name: self.name.clone(),
                            ttl,
                        };
                        let mut next = self;
                        next.records.push(record);
                        proof {
                            assert(next@.records =~= before.records.push(record@));
                        }
                        next.proceed()
                    },
                    None => WizardStep::Failed(WizardError::InvalidTtl(text.to_owned())),
                }
            },
        }
    }
}

} // verus!
