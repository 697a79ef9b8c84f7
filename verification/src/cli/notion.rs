//! The Notion subcommand: parsed arguments resolved into extraction
//! options.

use vstd::prelude::*;

use crate::notion::export::ExportOpts;

verus! {

/// The Notion subcommand tree.
pub struct Subcli {
    pub command: Command,
}

/// The Notion commands.
pub enum Command {
    Extract(ExtractCommand),
}

/// The parsed arguments of a Notion extraction.
pub struct ExtractCommand {
    pub source: String,
    pub target: String,
    pub force: bool,
    pub clean: bool,
}

impl Subcli {
    /// Resolves the subcommand into extraction options.
    pub fn run(&self) -> (o: ExportOpts)
        ensures
            crate::cli::notion_opts_match(o, *self),
    {
        self.command.run()
    }
}

impl Command {
    /// Resolves the command into extraction options.
    pub fn run(&self) -> (o: ExportOpts)
        ensures
            match self {
                Command::Extract(cmd) => o.source@ == cmd.source@ && o.target@ == cmd.target@
                    && o.force == cmd.force && o.clean == cmd.clean,
            },
    {
        match self {
            Command::Extract(cmd) => cmd.run(),
        }
    }
}

impl ExtractCommand {
    /// Copies the parsed arguments into extraction options.
    pub fn run(&self) -> (o: ExportOpts)
        ensures
            o.source@ == self.source@,
            o.target@ == self.target@,
            o.force == self.force,
            o.clean == self.clean,
    {
        ExportOpts {
            source: self.source.clone(),
            target: self.target.clone(),
            force: self.force,
            clean: self.clean,
        }
    }
}

} // verus!
