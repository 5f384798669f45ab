//! A run, step by step: what to do next, and what to print, for each thing
//! that happens. The caller does the work that a step asks for (fetching,
//! reading, probing) and tells the run how it went.

use crate::wire::{catalog_of_text, load_catalog};
use crate::error::{Fault, RunError};
use crate::filter::{filter_by_lang, of_lang, probe_targets, targets_of, text_views};
use crate::report::{download_line, download_report, probe_line, probe_report};
use vstd::prelude::*;

verus! {

/// What a run is set up with.
pub struct Config {
    /// Where the catalog is fetched from.
    pub url: String,
    /// The local file that the catalog is written to and read from.
    pub path: String,
    /// The language whose extensions are probed.
    pub lang: String,
}

/// What a `Config` stands for.
pub struct ConfigView {
    pub url: Seq<char>,
    pub path: Seq<char>,
    pub lang: Seq<char>,
}

impl View for Config {
    type V = ConfigView;

    open spec fn view(&self) -> ConfigView {
        ConfigView { url: self.url@, path: self.path@, lang: self.lang@ }
    }
}

/// Where the index of the extension repository is fetched from.
pub const INDEX_URL: &'static str =
    "https://raw.githubusercontent.com/keiyoushi/extensions/refs/heads/repo/index.min.json";

/// The file in the working directory that the index is kept in.
pub const INDEX_PATH: &'static str = "index.min.json";

/// The language that is probed.
pub const LANGUAGE: &'static str = "es";

impl Default for Config {
    /// The usual setup: the index of the extension repository, a file in the
    /// working directory, and Spanish.
    fn default() -> (config: Config)
        ensures
            config.url@ == INDEX_URL@,
            config.path@ == INDEX_PATH@,
            config.lang@ == LANGUAGE@,
    {
        Config { url: INDEX_URL.to_owned(), path: INDEX_PATH.to_owned(), lang: LANGUAGE.to_owned() }
    }
}

/// How far a run has come. Between `Loading` and `Probing` lies no phase of
/// its own: the step that is told the content of the file loads the catalog,
/// filters it and begins to probe.
#[derive(Clone, Copy, Debug, PartialEq, Eq, Structural)]
pub enum Phase {
    /// Not begun.
    Idle,
    /// The catalog is being fetched and written to the local file.
    Fetching,
    /// The local file is being read.
    Loading,
    /// The target with this index is being probed; those before it have
    /// answered.
    Probing(usize),
    /// Every target has answered.
    Done,
    /// The run has stopped on an error.
    Failed(RunError),
}

/// What happened, as the caller tells the run.
#[derive(Debug, PartialEq, Eq)]
pub enum Event {
    /// The run is to begin.
    Begin,
    /// The catalog has been fetched and written.
    Fetched,
    /// The local file has been read; this is its content.
    Read(Vec<u8>),
    /// The probed source answered with this status.
    Responded(u16),
    /// The work that the run waited for could not be done.
    Failed(Fault),
}

/// What an `Event` stands for.
pub enum EventView {
    Begin,
    Fetched,
    Read(Seq<u8>),
    Responded(u16),
    Failed(Fault),
}

impl View for Event {
    type V = EventView;

    open spec fn view(&self) -> EventView {
        match *self {
            Event::Begin => EventView::Begin,
            Event::Fetched => EventView::Fetched,
            Event::Read(text) => EventView::Read(text@),
            Event::Responded(status) => EventView::Responded(status),
            Event::Failed(fault) => EventView::Failed(fault),
        }
    }
}

/// What the caller is to do next.
#[derive(Debug, PartialEq, Eq)]
pub enum Action {
    /// Begin the run.
    Begin,
    /// Fetch `url` and write the whole answer to `path`, whatever its status.
    Fetch { url: String, path: String },
    /// Read the file at `path`.
    Read { path: String },
    /// Request `url` and tell the status of the answer.
    Probe { url: String },
    /// Nothing more: the run is done.
    Finish,
    /// Nothing more: the run has failed.
    Abort(RunError),
}

/// What an `Action` stands for.
pub enum ActionView {
    Begin,
    Fetch { url: Seq<char>, path: Seq<char> },
    Read { path: Seq<char> },
    Probe { url: Seq<char> },
    Finish,
    Abort(RunError),
}

impl View for Action {
    type V = ActionView;

    open spec fn view(&self) -> ActionView {
        match *self {
            Action::Begin => ActionView::Begin,
            Action::Fetch { url, path } => ActionView::Fetch { url: url@, path: path@ },
            Action::Read { path } => ActionView::Read { path: path@ },
            Action::Probe { url } => ActionView::Probe { url: url@ },
            Action::Finish => ActionView::Finish,
            Action::Abort(error) => ActionView::Abort(error),
        }
    }
}

/// What one step yields: a line to print, if any, and what to do next.
#[derive(Debug, PartialEq, Eq)]
pub struct Step {
    pub line: Option<String>,
    pub action: Action,
}

/// What a line that may be missing stands for.
pub open spec fn line_view(line: Option<String>) -> Option<Seq<char>> {
    match line {
        Some(text) => Some(text@),
        None => None,
    }
}

/// A run in progress.
pub struct Run {
    config: Config,
    phase: Phase,
    targets: Vec<String>,
}

/// What a `Run` stands for.
pub struct RunView {
    pub config: ConfigView,
    pub phase: Phase,
    /// The addresses to probe, in the order of probing. Empty until the
    /// catalog is loaded.
    pub targets: Seq<Seq<char>>,
}

impl RunView {
    /// The targets can be counted, and a run that probes has a target to
    /// probe.
    pub open spec fn wf(self) -> bool {
        &&& self.targets.len() <= usize::MAX
        &&& self.phase matches Phase::Probing(k) ==> k < self.targets.len()
    }

    /// The run with another phase.
    pub open spec fn at(self, phase: Phase) -> RunView {
        RunView { phase, ..self }
    }
}

/// The phase in which the probing of `targets` goes on after `done` of them
/// have answered.
pub open spec fn probing_from(targets: Seq<Seq<char>>, done: nat) -> Phase {
    if done < targets.len() {
        Phase::Probing(done as usize)
    } else {
        Phase::Done
    }
}

/// The run after an event, and the line that the step prints. An event
/// that the run does not wait for changes nothing and prints nothing.
pub open spec fn advance(run: RunView, event: EventView) -> (RunView, Option<Seq<char>>) {
    match (run.phase, event) {
        (Phase::Idle, EventView::Begin) => (run.at(Phase::Fetching), None),
        (Phase::Fetching, EventView::Fetched) => (
            run.at(Phase::Loading),
            Some(download_report(run.config.path)),
        ),
        (Phase::Loading, EventView::Read(text)) => match catalog_of_text(text) {
            Some(catalog) => {
                let targets = targets_of(of_lang(catalog, run.config.lang));
                (RunView { phase: probing_from(targets, 0), targets, ..run }, None)
            },
            None => (run.at(Phase::Failed(RunError::ParseError)), None),
        },
        (Phase::Probing(k), EventView::Responded(status)) => (
            run.at(probing_from(run.targets, (k + 1) as nat)),
            Some(probe_report(run.targets[k as int], status)),
        ),
        (Phase::Fetching | Phase::Loading | Phase::Probing(_), EventView::Failed(fault)) => (
            run.at(Phase::Failed(fault.error_of())),
            None,
        ),
        _ => (run, None),
    }
}

/// What a run waits for.
pub open spec fn pending(run: RunView) -> ActionView {
    match run.phase {
        Phase::Idle => ActionView::Begin,
        Phase::Fetching => ActionView::Fetch { url: run.config.url, path: run.config.path },
        Phase::Loading => ActionView::Read { path: run.config.path },
        Phase::Probing(k) => ActionView::Probe { url: run.targets[k as int] },
        Phase::Done => ActionView::Finish,
        Phase::Failed(error) => ActionView::Abort(error),
    }
}

impl View for Run {
    type V = RunView;

    closed spec fn view(&self) -> RunView {
        RunView { config: self.config@, phase: self.phase, targets: text_views(self.targets@) }
    }
}

impl Run {
    #[verifier::type_invariant]
    spec fn inv(self) -> bool {
        self@.wf()
    }

    /// A run that has not begun.
    pub fn new(config: Config) -> (run: Run)
        ensures
            run@ == (RunView { config: config@, phase: Phase::Idle, targets: Seq::empty() }),
            run@.wf(),
    {
        let run = Run { config, phase: Phase::Idle, targets: Vec::new() };
        assert(text_views(run.targets@) =~= Seq::empty());
        run
    }

    /// How far the run has come.
    pub fn phase(&self) -> (phase: Phase)
        ensures
            phase == self@.phase,
    {
        self.phase
    }

    /// What the run waits for.
    pub fn pending(&self) -> (action: Action)
        ensures
            action@ == pending(self@),
    {
        proof {
            use_type_invariant(self);
        }
        match self.phase {
            Phase::Idle => Action::Begin,
            Phase::Fetching => Action::Fetch {
                url: self.config.url.clone(),
                path: self.config.path.clone(),
            },
            Phase::Loading => Action::Read { path: self.config.path.clone() },
            Phase::Probing(k) => Action::Probe { url: self.targets[k].clone() },
            Phase::Done => Action::Finish,
            Phase::Failed(error) => Action::Abort(error),
        }
    }

    /// Takes the run one step on: tells it what happened, and learns what
    /// to print and what to do next.
    pub fn step(self, event: Event) -> (next: (Run, Step))
        ensures
            next.0@ == advance(self@, event@).0,
            line_view(next.1.line) == advance(self@, event@).1,
            next.1.action@ == pending(next.0@),
            next.0@.wf(),
    {
        proof {
            use_type_invariant(&self);
        }
        let Run { config, phase, targets } = self;
        let mut line: Option<String> = None;
        let mut after = phase;
        let mut probes = targets;
        match (phase, event) {
            (Phase::Idle, Event::Begin) => {
                after = Phase::Fetching;
            },
            (Phase::Fetching, Event::Fetched) => {
                line = Some(download_line(config.path.as_str()));
                after = Phase::Loading;
            },
            (Phase::Loading, Event::Read(text)) => {
                match load_catalog(text.as_slice()) {
                    Ok(catalog) => {
                        let kept = filter_by_lang(&catalog, config.lang.as_str());
                        probes = probe_targets(&kept);
                        after = if probes.len() > 0 {
                            Phase::Probing(0)
                        } else {
                            Phase::Done
                        };
                    },
                    Err(error) => {
                        after = Phase::Failed(error);
                    },
                }
            },
            (Phase::Probing(k), Event::Responded(status)) => {
                line = Some(probe_line(probes[k].as_str(), status));
                after = if k + 1 < probes.len() {
                    Phase::Probing(k + 1)
                } else {
                    Phase::Done
                };
            },
            (Phase::Fetching | Phase::Loading | Phase::Probing(_), Event::Failed(fault)) => {
                after = Phase::Failed(fault.error());
            },
            _ => {},
        }
        let run = Run { config, phase: after, targets: probes };
        let action = run.pending();
        (run, Step { line, action })
    }
}

/// The run after a sequence of events, and the lines printed on the way.
pub open spec fn run_through(run: RunView, events: Seq<EventView>) -> (RunView, Seq<Seq<char>>)
    decreases events.len(),
{
    if events.len() == 0 {
        (run, Seq::empty())
    } else {
        let first = advance(run, events.first());
        let rest = run_through(first.0, events.drop_first());
        match first.1 {
            Some(line) => (rest.0, seq![line] + rest.1),
            None => rest,
        }
    }
}

/// The events of sources that answer with these statuses, one after another.
pub open spec fn answers(statuses: Seq<u16>) -> Seq<EventView> {
    statuses.map_values(|status: u16| EventView::Responded(status))
}

/// The lines for the targets from `done` on, answered with these statuses.
pub open spec fn probe_reports(targets: Seq<Seq<char>>, done: nat, statuses: Seq<u16>) -> Seq<
    Seq<char>,
> {
    Seq::new(statuses.len(), |i: int| probe_report(targets[done + i], statuses[i]))
}

/// A run that is done or has failed stays as it is and prints nothing,
/// whatever happens after.
pub proof fn lemma_stopped_is_silent(run: RunView, events: Seq<EventView>)
    requires
        run.phase is Done || run.phase is Failed,
    ensures
        run_through(run, events) == (run, Seq::<Seq<char>>::empty()),
    decreases events.len(),
{
    if events.len() > 0 {
        lemma_stopped_is_silent(run, events.drop_first());
    }
}

/// A fault in the work that a run waits for stops the run with the fault's
/// error: nothing is printed for it, nor for anything that happens after.
pub proof fn lemma_fault_stops(run: RunView, fault: Fault, later: Seq<EventView>)
    requires
        run.phase is Fetching || run.phase is Loading || run.phase is Probing,
    ensures
        run_through(run, seq![EventView::Failed(fault)] + later) == (
            run.at(Phase::Failed(fault.error_of())),
            Seq::<Seq<char>>::empty(),
        ),
{
    let events = seq![EventView::Failed(fault)] + later;
    assert(events.drop_first() =~= later);
    lemma_stopped_is_silent(run.at(Phase::Failed(fault.error_of())), later);
}

/// A probe that cannot be completed stops the run with a `NetworkError`:
/// the lines are those of the sources that answered before, and no more.
pub proof fn lemma_probe_fault_stops(
    run: RunView,
    done: nat,
    statuses: Seq<u16>,
    later: Seq<EventView>,
)
    requires
        run.wf(),
        done + statuses.len() < run.targets.len(),
        run.phase == probing_from(run.targets, done),
    ensures
        run_through(run, answers(statuses) + seq![EventView::Failed(Fault::Request)] + later) == (
            run.at(Phase::Failed(RunError::NetworkError)),
            probe_reports(run.targets, done, statuses),
        ),
    decreases statuses.len(),
{
    let events = answers(statuses) + seq![EventView::Failed(Fault::Request)] + later;
    if statuses.len() == 0 {
        lemma_fault_stops(run, Fault::Request, later);
    } else {
        let step = advance(run, events.first());
        let rest = statuses.drop_first();
        assert(events.drop_first() =~= answers(rest) + seq![EventView::Failed(Fault::Request)]
            + later);
        lemma_probe_fault_stops(step.0, done + 1, rest, later);
        assert(seq![step.1->Some_0] + probe_reports(run.targets, done + 1, rest)
            =~= probe_reports(run.targets, done, statuses));
    }
}

/// The lines of events that follow each other are the lines of the first
/// events, then those of the others from where the first left the run.
pub proof fn lemma_run_through_concat(run: RunView, first: Seq<EventView>, then: Seq<EventView>)
    ensures
        run_through(run, first + then) == (
            run_through(run_through(run, first).0, then).0,
            run_through(run, first).1 + run_through(run_through(run, first).0, then).1,
        ),
    decreases first.len(),
{
    if first.len() > 0 {
        let step = advance(run, first.first());
        assert((first + then).drop_first() =~= first.drop_first() + then);
        lemma_run_through_concat(step.0, first.drop_first(), then);
    }
}

/// Sources that all answer are reported one line each, in the order of the
/// targets, and the run is done after the last.
pub proof fn lemma_probes_in_order(run: RunView, done: nat, statuses: Seq<u16>)
    requires
        run.wf(),
        done + statuses.len() == run.targets.len(),
        run.phase == probing_from(run.targets, done),
    ensures
        run_through(run, answers(statuses)) == (
            run.at(Phase::Done),
            probe_reports(run.targets, done, statuses),
        ),
    decreases statuses.len(),
{
    let events = answers(statuses);
    if statuses.len() > 0 {
        let step = advance(run, events.first());
        assert(events.drop_first() =~= answers(statuses.drop_first()));
        lemma_probes_in_order(step.0, done + 1, statuses.drop_first());
        assert(seq![step.1->Some_0] + probe_reports(
            run.targets,
            done + 1,
            statuses.drop_first(),
        ) =~= probe_reports(run.targets, done, statuses));
    }
}

/// A whole run without failure: begun, fetched, read and answered by every
/// target, it prints the line of the download and then one line for each
/// source of the extensions of the language, in their order, and is done.
pub proof fn lemma_whole_run(config: ConfigView, text: Seq<u8>, statuses: Seq<u16>)
    requires
        catalog_of_text(text) is Some,
        statuses.len() == targets_of(of_lang(catalog_of_text(text)->Some_0, config.lang)).len(),
        statuses.len() <= usize::MAX,
    ensures
        ({
            let idle = RunView { config, phase: Phase::Idle, targets: Seq::empty() };
            let targets = targets_of(of_lang(catalog_of_text(text)->Some_0, config.lang));
            let events = seq![EventView::Begin, EventView::Fetched, EventView::Read(text)]
                + answers(statuses);
            run_through(idle, events) == (
                RunView { config, phase: Phase::Done, targets },
                seq![download_report(config.path)] + probe_reports(targets, 0, statuses),
            )
        }),
{
    let idle = RunView { config, phase: Phase::Idle, targets: Seq::empty() };
    let targets = targets_of(of_lang(catalog_of_text(text)->Some_0, config.lang));
    let opening = seq![EventView::Begin, EventView::Fetched, EventView::Read(text)];
    let loaded = RunView { config, phase: probing_from(targets, 0), targets };
    reveal_with_fuel(run_through, 4);
    assert(run_through(idle, opening) == (loaded, seq![download_report(config.path)]));
    lemma_probes_in_order(loaded, 0, statuses);
    lemma_run_through_concat(idle, opening, answers(statuses));
}

} // verus!
