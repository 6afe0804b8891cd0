//! Per-invocation configuration: where the notes and the user template
//! live, and which operation the command line selected.

use vstd::prelude::*;

use crate::standup::StandupCommand;
use crate::text::str_eq;

verus! {

/// The tool's configuration, built once per invocation: the notes
/// directory, the user-template path, and the raw subcommand token taken
/// from the command line (`None` when none was given).
pub struct Config {
    pub directory: String,
    pub standup_template: String,
    pub subcommand: Option<String>,
}

/// The operation a subcommand token selects: exactly `init` selects
/// `Initialize`; any other token, or none at all, selects `Run`.
pub open spec fn selected_command(subcommand: &Option<String>) -> StandupCommand {
    match subcommand {
        Some(token) => if token@ == "init"@ {
            StandupCommand::Initialize
        } else {
            StandupCommand::Run
        },
        None => StandupCommand::Run,
    }
}

/// Builds the configuration from the user's home directory and the optional
/// subcommand token: notes live in `<home>/standups`, the user template at
/// `<home>/.standup_template`.
pub fn build(home: &str, subcommand: Option<String>) -> (c: Config)
    ensures
        c.directory@ == home@ + "/standups"@,
        c.standup_template@ == home@ + "/.standup_template"@,
        c.subcommand == subcommand,
{
    let mut directory = String::from_str(home);
    directory.append("/standups");
    let mut standup_template = String::from_str(home);
    standup_template.append("/.standup_template");
    Config { directory, standup_template, subcommand }
}

impl Config {
    /// Maps the stored subcommand token to the selected operation.
    pub fn command(&self) -> (r: StandupCommand)
        ensures
            r == selected_command(&self.subcommand),
    {
        match &self.subcommand {
            Some(token) => if str_eq(token.as_str(), "init") {
                StandupCommand::Initialize
            } else {
                StandupCommand::Run
            },
            None => StandupCommand::Run,
        }
    }
}

} // verus!
