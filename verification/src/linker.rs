//! The commands as they are started on a configuration.

use crate::config::{Config, ConfigView};
use crate::link::Link;
use crate::outcome::Subcommand;
use crate::run::{EntryView, Run, RunView};
use crate::state::{classify, Probe, State};
use vstd::prelude::*;

verus! {

impl ConfigView {
    /// Whether `entries` are the links of this configuration, one for one
    /// and in the same order, each with its paths resolved.
    pub open spec fn resolves_to(self, entries: Seq<EntryView>) -> bool {
        &&& entries.len() == self.links.len()
        &&& forall|i: int|
            #![trigger entries[i]]
            0 <= i < entries.len() ==> {
                &&& entries[i].name == self.links[i].0
                &&& self.resolves(self.links[i].1.source, entries[i].source)
                &&& self.resolves(self.links[i].1.target, entries[i].target)
            }
    }
}

/// Starts the commands on one configuration.
#[derive(Clone, Copy)]
pub struct Linker<'a> {
    config: &'a Config,
}

impl<'a> Linker<'a> {
    /// The configuration that the commands run on.
    pub closed spec fn config(self) -> &'a Config {
        self.config
    }

    /// A linker for `config`.
    pub fn new(config: &'a Config) -> (linker: Linker<'a>)
        ensures
            linker.config() == config,
    {
        Linker { config }
    }

    /// The state of `link` as `probe` shows it.
    pub fn get_entry_state(link: &Link, probe: &Probe) -> (state: State)
        ensures
            state@ == classify(link@.source, probe@),
    {
        State::get(link.source.as_str(), probe)
    }

    /// Starts `subcommand` on the links of the configuration, in the order
    /// of their names and with their paths resolved.
    pub fn start(&self, subcommand: Subcommand) -> (run: Run<'a>)
        ensures
            self.config()@.resolves_to(run@.entries),
            run@ == RunView::start(subcommand, run@.entries),
            run@.wf(),
    {
        let links = self.config.links();
        let ghost entries = crate::run::entries_view(links@);
        assert(self.config()@.resolves_to(entries));
        Run::new(subcommand, links)
    }

    /// Starts a run that creates the symlinks that are missing.
    pub fn link(&self) -> (run: Run<'a>)
        ensures
            self.config()@.resolves_to(run@.entries),
            run@ == RunView::start(Subcommand::Link, run@.entries),
            run@.wf(),
    {
        self.start(Subcommand::Link)
    }

    /// Starts a run that reports the state of every link.
    pub fn status(&self) -> (run: Run<'a>)
        ensures
            self.config()@.resolves_to(run@.entries),
            run@ == RunView::start(Subcommand::Status, run@.entries),
            run@.wf(),
    {
        self.start(Subcommand::Status)
    }

    /// Starts a run that removes the symlinks that point at their source.
    pub fn unlink(&self) -> (run: Run<'a>)
        ensures
            self.config()@.resolves_to(run@.entries),
            run@ == RunView::start(Subcommand::Unlink, run@.entries),
            run@.wf(),
    {
        self.start(Subcommand::Unlink)
    }
}

impl Subcommand {
    /// Starts this command on `config`.
    pub fn run<'a>(self, config: &'a Config) -> (run: Run<'a>)
        ensures
            config@.resolves_to(run@.entries),
            run@ == RunView::start(self, run@.entries),
            run@.wf(),
    {
        match self {
            Subcommand::Link => Linker::new(config).link(),
            Subcommand::Status => Linker::new(config).status(),
            Subcommand::Unlink => Linker::new(config).unlink(),
        }
    }
}

/// What was asked for on the command line.
#[derive(Clone, Copy, Debug, PartialEq, Eq)]
pub struct Arguments {
    pub subcommand: Subcommand,
}

impl Arguments {
    /// Starts the command that was asked for on `config`.
    pub fn run<'a>(self, config: &'a Config) -> (run: Run<'a>)
        ensures
            config@.resolves_to(run@.entries),
            run@ == RunView::start(self.subcommand, run@.entries),
            run@.wf(),
    {
        self.subcommand.run(config)
    }
}

} // verus!
