//! The command-line layer: parsed arguments and configuration resolved
//! into the options of the run they ask for.  Argument parsing itself and
//! every side effect stay outside the library.

pub mod audible;
pub mod kindle;
pub mod notion;

use vstd::prelude::*;

use crate::config::Config;

verus! {

/// A parsed invocation: the subcommand and the configuration file path.
pub struct Cli {
    pub command: Command,
    pub config: String,
}

/// The subcommands.
pub enum Command {
    Audible(crate::cli::audible::Subcli),
    Kindle(crate::cli::kindle::Subcli),
    Notion(crate::cli::notion::Subcli),
}

/// The work one invocation resolves to.
pub enum RunPlan {
    Audible(crate::audible::export::ExportOpts),
    Kindle(crate::kindle::export::ExportOpts),
    Notion(crate::notion::export::ExportOpts),
}

impl Cli {
    /// Resolves the invocation against the loaded configuration.  A
    /// Kindle run demands a configured Kindle section.
    pub fn run(&self, conf: Config) -> (plan: RunPlan)
        requires
            self.command is Kindle ==> conf.kindle is Some,
        ensures
            match (plan, &self.command) {
                (RunPlan::Audible(o), Command::Audible(sub)) => audible_opts_match(o, *sub),
                (RunPlan::Kindle(o), Command::Kindle(sub)) => match conf.kindle {
                    Some(kc) => kindle_opts_match(o, *sub, kc),
                    None => false,
                },
                (RunPlan::Notion(o), Command::Notion(sub)) => notion_opts_match(o, *sub),
                _ => false,
            },
    {
        match &self.command {
            Command::Audible(sub) => RunPlan::Audible(sub.run()),
            Command::Kindle(sub) => match conf.kindle {
                Some(kc) => RunPlan::Kindle(sub.run(kc)),
                None => {
                    proof {
                        assert(false);
                    }
                    RunPlan::Notion(
                        crate::notion::export::ExportOpts {
                            source: String::new(),
                            target: String::new(),
                            force: false,
                            clean: false,
                        },
                    )
                },
            },
            Command::Notion(sub) => RunPlan::Notion(sub.run()),
        }
    }
}

/// Whether Audible run options faithfully carry the parsed arguments.
pub open spec fn audible_opts_match(
    o: crate::audible::export::ExportOpts,
    sub: crate::cli::audible::Subcli,
) -> bool {
    match sub.command {
        crate::cli::audible::Command::Export(cmd) => {
            &&& o.source@ == cmd.source@
            &&& o.target@ == cmd.target@
            &&& o.force == cmd.force
            &&& o.clean == cmd.clean
        },
    }
}

/// Whether Kindle run options faithfully carry the parsed arguments and
/// the configured credentials.
pub open spec fn kindle_opts_match(
    o: crate::kindle::export::ExportOpts,
    sub: crate::cli::kindle::Subcli,
    kc: crate::kindle::config::Config,
) -> bool {
    match sub.command {
        crate::cli::kindle::Command::Export(cmd) => {
            &&& o.target@ == cmd.target@
            &&& o.headless == cmd.headless
            &&& o.email@ == kc.email@
            &&& o.password@ == kc.password@
        },
    }
}

/// Whether Notion run options faithfully carry the parsed arguments.
pub open spec fn notion_opts_match(
    o: crate::notion::export::ExportOpts,
    sub: crate::cli::notion::Subcli,
) -> bool {
    match sub.command {
        crate::cli::notion::Command::Extract(cmd) => {
            &&& o.source@ == cmd.source@
            &&& o.target@ == cmd.target@
            &&& o.force == cmd.force
            &&& o.clean == cmd.clean
        },
    }
}

} // verus!
