//! The Kindle subcommand: parsed arguments and credentials resolved into
//! export options.

use vstd::prelude::*;

use crate::kindle::config::Config;
use crate::kindle::export::ExportOpts;

verus! {

/// The Kindle subcommand tree.
pub struct Subcli {
    pub command: Command,
}

/// The Kindle commands.
pub enum Command {
    Export(ExportCommand),
}

/// The parsed arguments of a Kindle export.
pub struct ExportCommand {
    pub target: String,
    pub headless: bool,
}

impl Subcli {
    /// Resolves the subcommand into export options.
    pub fn run(&self, conf: Config) -> (o: ExportOpts)
        ensures
            crate::cli::kindle_opts_match(o, *self, conf),
    {
        self.command.run(conf)
    }
}

impl Command {
    /// Resolves the command into export options.
    pub fn run(&self, conf: Config) -> (o: ExportOpts)
        ensures
            match self {
                Command::Export(cmd) => o.target@ == cmd.target@ && o.headless == cmd.headless
                    && o.email@ == conf.email@ && o.password@ == conf.password@,
            },
    {
        match self {
            Command::Export(cmd) => cmd.run(conf),
        }
    }
}

impl ExportCommand {
    /// Copies the parsed arguments and the credentials into export
    /// options.
    pub fn run(&self, conf: Config) -> (o: ExportOpts)
        ensures
            o.target@ == self.target@,
            o.headless == self.headless,
            o.email@ == conf.email@,
            o.password@ == conf.password@,
    {
        ExportOpts {
            target: self.target.clone(),
            headless: self.headless,
            email: conf.email,
            password: conf.password,
        }
    }
}

} // verus!
