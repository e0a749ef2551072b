//! What the process is asked to do: the choices of the command line, and
//! the rule that writing a new configuration goes with no other choice.

use crate::text::same_text;
use vstd::prelude::*;

verus! {

broadcast use vstd::string::group_string_axioms;

/// The choices of the command line.
#[derive(Debug, Clone, PartialEq, Eq)]
pub struct Cli {
    /// The path of the configuration file.
    pub config: String,
    /// Whether to run one cycle and end.
    pub once: bool,
    /// The path at which to write a new configuration, if one is to be
    /// written.
    pub write_config: Option<String>,
    /// Whether to leave the provider out and only say what would be done.
    pub no_aws: bool,
}

/// What the process is to do.
#[derive(Debug, Clone, PartialEq, Eq)]
pub enum Command {
    /// Ask for a configuration and write it to `path`.
    WriteConfig { path: String },
    /// Reconcile the records of the configuration at `config`.
    Run { config: String, once: bool, dry_run: bool },
}

/// Why the choices of the command line cannot be followed.
#[derive(Debug, Clone, Copy, PartialEq, Eq, Structural)]
pub enum UsageError {
    /// A new configuration is to be written and another choice was made as
    /// well.
    WriteConfigWithOtherFlags,
}

impl UsageError {
    /// Writes the error in words.
    pub fn message(&self) -> (r: String)
        ensures
            r@ == "--write-config cannot be used with other flags"@,
    {
        "--write-config cannot be used with other flags".to_owned()
    }
}

impl Cli {
    /// Whether a choice was made besides that of writing a configuration:
    /// one cycle only, a configuration file other than `config.toml`, or no
    /// provider.
    pub open spec fn other_flags(self) -> bool {
        self.once || self.config@ != "config.toml"@ || self.no_aws
    }

    /// What the process is to do.
    ///
    /// Where a configuration is to be written, no other choice may have been
    /// made. Else the records of the chosen configuration are reconciled.
    pub fn command(&self) -> (r: Result<Command, UsageError>)
        ensures
            match self.write_config {
                Some(path) => if self.other_flags() {
                    r == Err::<Command, UsageError>(UsageError::WriteConfigWithOtherFlags)
                } else {
                    r matches Ok(Command::WriteConfig { path: to }) && to@ == path@
                },
                None => (r matches Ok(Command::Run { config, once, dry_run }) && config@
                    == self.config@ && once == self.once && dry_run == self.no_aws),
            },
    {
        match &self.write_config {
            Some(path) => {
                if self.once || !same_text(self.config.as_str(), "config.toml") || self.no_aws {
                    Err(UsageError::WriteConfigWithOtherFlags)
                } else {
                    Ok(Command::WriteConfig { path: path.clone() })
                }
            },
            None => Ok(
                Command::Run { config: self.config.clone(), once: self.once, dry_run: self.no_aws },
            ),
        }
    }
}

} // verus!
