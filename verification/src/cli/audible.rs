//! The Audible subcommand: parsed arguments resolved into export options.

use vstd::prelude::*;

use crate::audible::export::ExportOpts;

verus! {

/// The Audible subcommand tree.
pub struct Subcli {
    pub command: Command,
}

/// The Audible commands.
pub enum Command {
    Export(ExportCommand),
}

/// The parsed arguments of an Audible export.
pub struct ExportCommand {
    pub source: String,
    pub target: String,
    pub force: bool,
    pub clean: bool,
}

impl Subcli {
    /// Resolves the subcommand into export options.
    pub fn run(&self) -> (o: ExportOpts)
        ensures
            crate::cli::audible_opts_match(o, *self),
    {
        self.command.run()
    }
}

impl Command {
    /// Resolves the command into export options.
    pub fn run(&self) -> (o: ExportOpts)
        ensures
            match self {
                Command::Export(cmd) => o.source@ == cmd.source@ && o.target@ == cmd.target@
                    && o.force == cmd.force && o.clean == cmd.clean,
            },
    {
        match self {
            Command::Export(cmd) => cmd.run(),
        }
    }
}

impl ExportCommand {
    /// Copies the parsed arguments into export options.
    pub fn run(&self) -> (o: ExportOpts)
        ensures
            o.source@ == self.source@,
            o.target@ == self.target@,
            o.force == self.force,
            o.clean == self.clean,
    {
        ExportOpts {
            source: self.source.clone(),
            target: self.target.clone(),
            force: self.force,
            clean: self.clean,
        }
    }
}

} // verus!
