//! The decisions of the cancellable batch driver, as a state machine: the
//! caller performs each conversion step and reports what happened, and the
//! machine says what to do next, keeps the progress percentage, and records
//! the log.
use vstd::prelude::*;

use crate::chars::{push_str, string_of};
use crate::subtitle::{decimal, push_decimal};

verus! {

#[derive(Debug, Clone, Copy, PartialEq, Eq, Structural)]
pub enum LogLevel {
    Info,
    Notice,
    Error,
}

/// One line of the batch log.
#[derive(Debug, Clone)]
pub struct LogEntry {
    pub message: String,
    pub level: LogLevel,
}

/// Where a batch stands.
#[derive(Debug, Clone, Copy, PartialEq, Eq, Structural)]
pub enum BatchStatus {
    Idle,
    Running,
    Completed,
    Cancelled,
    Failed,
}

/// A stage of one item's conversion.
#[derive(Debug, Clone, Copy, PartialEq, Eq, Structural)]
pub enum Stage {
    Read,
    Normalize,
    Synthesize,
    ConvertFormat,
    Subtitle,
    Video,
}

/// Why an item could not be converted.
#[derive(Debug, Clone, Copy, PartialEq, Eq, Structural)]
pub enum FailureKind {
    /// The source file does not exist.
    MissingSource,
    /// The source file exists but could not be read as text.
    ReadSource,
    /// The output directory could not be created.
    OutputDir,
    /// The speech engine failed.
    Synthesis,
    /// The audio could not be converted to the requested format.
    ConvertFormat,
    /// The captions could not be written.
    WriteSubtitles,
    /// The optional video could not be generated.
    Video,
}

/// Failures that only skip their item: a missing source, and a failed
/// optional video (the audio and captions are already written). Every other
/// failure halts the batch.
pub open spec fn skips_item(kind: FailureKind) -> bool {
    kind == FailureKind::MissingSource || kind == FailureKind::Video
}

impl FailureKind {
    /// Whether this failure only skips its item rather than halting the batch.
    pub fn skips_item(&self) -> (r: bool)
        ensures
            r == skips_item(*self),
    {
        match self {
            FailureKind::MissingSource | FailureKind::Video => true,
            _ => false,
        }
    }
}

/// How far into an item (in percent) each stage starts.
pub open spec fn stage_progress(s: Stage) -> nat {
    match s {
        Stage::Read => 0,
        Stage::Normalize => 5,
        Stage::Synthesize => 10,
        Stage::ConvertFormat => 40,
        Stage::Subtitle => 50,
        Stage::Video => 70,
    }
}

/// What the caller reports.
#[derive(Debug, Clone, PartialEq, Eq)]
pub enum Event {
    /// The caller starts the batch.
    Start,
    /// The caller is between items; `cancel` tells whether cancellation has
    /// been requested.
    Boundary { cancel: bool },
    /// The current item enters `stage`; `cancel` tells whether cancellation
    /// has been requested.
    Enter { stage: Stage, cancel: bool },
    /// The current item was converted.
    ItemDone,
    /// The current item failed; `kind` decides whether the batch goes on.
    ItemFailed { kind: FailureKind, reason: String },
}

/// What the machine tells the caller to do.
#[derive(Debug, Clone, Copy, PartialEq, Eq, Structural)]
pub enum Action {
    /// Begin the item at this position of the batch.
    Process(usize),
    /// Go on with the current item, or ask again at the next boundary.
    Continue,
    /// The batch is over, with this status.
    Stop(BatchStatus),
    /// The event does not apply in the current state and was ignored.
    Ignored,
}

/// The state of a batch as the contracts see it.
pub struct BatchModel {
    pub total: nat,
    pub names: Seq<Seq<char>>,
    pub next: nat,
    pub in_item: bool,
    pub completed: nat,
    pub progress: nat,
    pub status: BatchStatus,
    pub log: Seq<(Seq<char>, LogLevel)>,
}

pub open spec fn cancel_message() -> Seq<char> {
    "Processing cancelled by user"@
}

pub open spec fn finished_message() -> Seq<char> {
    "All items processed successfully!"@
}

/// "Processing item i/n: name".
pub open spec fn item_message(i: nat, n: nat, name: Seq<char>) -> Seq<char> {
    "Processing item "@ + decimal(i) + seq!['/'] + decimal(n) + ": "@ + name
}

/// "Completed: name".
pub open spec fn done_message(name: Seq<char>) -> Seq<char> {
    "Completed: "@ + name
}

pub open spec fn stage_message(s: Stage) -> Seq<char> {
    match s {
        Stage::Read => "Reading source file..."@,
        Stage::Normalize => "Cleaning text..."@,
        Stage::Synthesize => "Generating audio..."@,
        Stage::ConvertFormat => "Converting audio format..."@,
        Stage::Subtitle => "Generating subtitles..."@,
        Stage::Video => "Starting video generation..."@,
    }
}

/// Progress when item `index` is `within` percent done:
/// `(index * 100 + within) / total`.
pub open spec fn progress_at(index: nat, within: nat, total: nat) -> nat {
    if total == 0 {
        100
    } else {
        (index * 100 + within) / total
    }
}

pub open spec fn raise(p: nat, q: nat) -> nat {
    if q > p {
        q
    } else {
        p
    }
}

pub open spec fn cancelled(s: BatchModel) -> BatchModel {
    BatchModel {
        status: BatchStatus::Cancelled,
        in_item: false,
        log: s.log.push((cancel_message(), LogLevel::Notice)),
        ..s
    }
}

/// After the current item ends (converted or skipped): the next item is due
/// and progress covers the ended item.
pub open spec fn item_ended(s: BatchModel, done: bool, line: (Seq<char>, LogLevel)) -> BatchModel {
    BatchModel {
        next: s.next + 1,
        in_item: false,
        completed: if done { s.completed + 1 } else { s.completed },
        progress: raise(s.progress, progress_at(s.next + 1, 0, s.total)),
        log: s.log.push(line),
        ..s
    }
}

/// The machine's transition: the next state and the action for the caller.
pub open spec fn transition(s: BatchModel, e: Event) -> (BatchModel, Action) {
    match e {
        Event::Start => if s.status == BatchStatus::Idle {
            (BatchModel { status: BatchStatus::Running, ..s }, Action::Continue)
        } else {
            (s, Action::Ignored)
        },
        Event::Boundary { cancel } => if s.status != BatchStatus::Running || s.in_item {
            (s, Action::Ignored)
        } else if cancel {
            (cancelled(s), Action::Stop(BatchStatus::Cancelled))
        } else if s.next >= s.total {
            (
                BatchModel {
                    status: BatchStatus::Completed,
                    progress: 100,
                    log: s.log.push((finished_message(), LogLevel::Info)),
                    ..s
                },
                Action::Stop(BatchStatus::Completed),
            )
        } else {
            (
                BatchModel {
                    in_item: true,
                    log: s.log.push((item_message(s.next + 1, s.total, s.names[s.next as int]), LogLevel::Info)),
                    ..s
                },
                Action::Process(s.next as usize),
            )
        },
        Event::Enter { stage, cancel } => if s.status != BatchStatus::Running || !s.in_item {
            (s, Action::Ignored)
        } else if cancel {
            (cancelled(s), Action::Stop(BatchStatus::Cancelled))
        } else {
            (
                BatchModel {
                    progress: raise(s.progress, progress_at(s.next, stage_progress(stage), s.total)),
                    log: s.log.push((stage_message(stage), LogLevel::Info)),
                    ..s
                },
                Action::Continue,
            )
        },
        Event::ItemDone => if s.status != BatchStatus::Running || !s.in_item {
            (s, Action::Ignored)
        } else {
            (item_ended(s, true, (done_message(s.names[s.next as int]), LogLevel::Info)), Action::Continue)
        },
        Event::ItemFailed { kind, reason } => if s.status != BatchStatus::Running || !s.in_item {
            (s, Action::Ignored)
        } else if skips_item(kind) {
            (item_ended(s, false, (reason@, LogLevel::Error)), Action::Continue)
        } else {
            (
                BatchModel {
                    status: BatchStatus::Failed,
                    in_item: false,
                    log: s.log.push((reason@, LogLevel::Error)),
                    ..s
                },
                Action::Stop(BatchStatus::Failed),
            )
        },
    }
}

/// The state reached from `s` through `events`.
pub open spec fn run(s: BatchModel, events: Seq<Event>) -> BatchModel
    decreases events.len(),
{
    if events.len() == 0 {
        s
    } else {
        transition(run(s, events.drop_last()), events.last()).0
    }
}

/// The actions answered to `events`, from `s`.
pub open spec fn actions(s: BatchModel, events: Seq<Event>) -> Seq<Action>
    decreases events.len(),
{
    if events.len() == 0 {
        Seq::empty()
    } else {
        actions(s, events.drop_last()).push(transition(run(s, events.drop_last()), events.last()).1)
    }
}

/// A batch state that the machine can reach.
pub open spec fn model_wf(s: BatchModel) -> bool {
    &&& s.next <= s.total
    &&& s.names.len() == s.total
    &&& s.completed <= s.next
    &&& s.progress <= 100
    &&& s.in_item ==> s.next < s.total && s.status == BatchStatus::Running
    &&& s.status == BatchStatus::Idle ==> s.next == 0 && !s.in_item
}

/// A cancelled batch stays cancelled: whatever is reported afterwards, no
/// further item is started, the batch never becomes completed, and its
/// progress does not move.
pub proof fn lemma_cancel_is_final(s: BatchModel, events: Seq<Event>)
    requires
        s.status == BatchStatus::Cancelled,
    ensures
        run(s, events).status == BatchStatus::Cancelled,
        run(s, events).next == s.next,
        run(s, events).progress == s.progress,
        actions(s, events).len() == events.len(),
        forall|k: int| 0 <= k < events.len() ==> !(#[trigger] actions(s, events)[k] is Process),
        forall|k: int|
            0 <= k < events.len() ==> #[trigger] actions(s, events)[k] != Action::Stop(
                BatchStatus::Completed,
            ),
    decreases events.len(),
{
    if events.len() > 0 {
        lemma_cancel_is_final(s, events.drop_last());
        let prev = actions(s, events.drop_last());
        let t = transition(run(s, events.drop_last()), events.last());
        assert(t.1 == Action::Ignored);
        assert(actions(s, events) == prev.push(t.1));
        assert forall|k: int| 0 <= k < events.len() implies !(#[trigger] actions(s, events)[k] is Process) by {
            if k < events.len() - 1 {
                assert(actions(s, events)[k] == prev[k]);
            }
        }
        assert forall|k: int| 0 <= k < events.len() implies #[trigger] actions(s, events)[k] != Action::Stop(BatchStatus::Completed) by {
            if k < events.len() - 1 {
                assert(actions(s, events)[k] == prev[k]);
            }
        }
    }
}

/// Cancellation is honoured at once: in a running batch, an event that carries
/// a cancellation request stops the batch as cancelled, and from then on no
/// item after the current one is started and the batch is never reported
/// completed.
pub proof fn lemma_cancel_stops_batch(s: BatchModel, stage: Stage, later: Seq<Event>)
    requires
        s.status == BatchStatus::Running,
    ensures
        !s.in_item ==> transition(s, Event::Boundary { cancel: true }) == (
            cancelled(s),
            Action::Stop(BatchStatus::Cancelled),
        ),
        s.in_item ==> transition(s, Event::Enter { stage, cancel: true }) == (
            cancelled(s),
            Action::Stop(BatchStatus::Cancelled),
        ),
        run(cancelled(s), later).status == BatchStatus::Cancelled,
        run(cancelled(s), later).next == s.next,
        forall|k: int| 0 <= k < later.len() ==> !(#[trigger] actions(cancelled(s), later)[k] is Process),
{
    lemma_cancel_is_final(cancelled(s), later);
}

/// The failure policy: while an item runs, a failure that only skips its
/// item moves on to the next item and keeps the batch running; any other
/// failure halts the batch as failed.
pub proof fn lemma_failure_policy(s: BatchModel, kind: FailureKind, reason: String)
    requires
        s.status == BatchStatus::Running,
        s.in_item,
    ensures
        skips_item(kind) ==> ({
            let t = transition(s, Event::ItemFailed { kind, reason });
            &&& t.1 == Action::Continue
            &&& t.0.status == BatchStatus::Running
            &&& t.0.next == s.next + 1
            &&& t.0.completed == s.completed
        }),
        !skips_item(kind) ==> transition(s, Event::ItemFailed { kind, reason }).1 == Action::Stop(
            BatchStatus::Failed,
        ),
{
}

proof fn lemma_progress_bound(index: nat, within: nat, total: nat)
    requires
        index < total,
        within <= 100,
    ensures
        progress_at(index, within, total) <= 100,
{
    assert((index * 100 + within) / total <= 100) by (nonlinear_arith)
        requires
            index < total,
            within <= 100,
    {
        assert(index * 100 + within <= total * 100);
    }
}

/// The transition keeps states well formed, and progress never goes down
/// while the batch runs.
pub proof fn lemma_transition_wf(s: BatchModel, e: Event)
    requires
        model_wf(s),
    ensures
        model_wf(transition(s, e).0),
        transition(s, e).0.progress >= s.progress,
        transition(s, e).0.next >= s.next,
{
    match e {
        Event::Enter { stage, cancel } => {
            if s.in_item {
                lemma_progress_bound(s.next, stage_progress(stage), s.total);
            }
        },
        Event::ItemDone | Event::ItemFailed { .. } => {
            if s.in_item && s.next + 1 < s.total {
                lemma_progress_bound(s.next + 1, 0, s.total);
            } else if s.in_item {
                assert(progress_at(s.next + 1, 0, s.total) == 100) by (nonlinear_arith)
                    requires
                        s.next + 1 == s.total,
                {}
            }
        },
        _ => {},
    }
}

/// The batch driver's state: how many items the batch has, which is due
/// next, whether one is being converted, the progress percentage, the status,
/// and the log.
pub struct BatchProcessor {
    total: usize,
    names: Vec<String>,
    next: usize,
    in_item: bool,
    completed: usize,
    progress: u8,
    status: BatchStatus,
    log: Vec<LogEntry>,
}

pub open spec fn log_view(l: Seq<LogEntry>) -> Seq<(Seq<char>, LogLevel)> {
    l.map_values(|e: LogEntry| (e.message@, e.level))
}

impl View for BatchProcessor {
    type V = BatchModel;

    closed spec fn view(&self) -> BatchModel {
        BatchModel {
            total: self.total as nat,
            names: self.names@.map_values(|n: String| n@),
            next: self.next as nat,
            in_item: self.in_item,
            completed: self.completed as nat,
            progress: self.progress as nat,
            status: self.status,
            log: log_view(self.log@),
        }
    }
}

fn line(message: Vec<char>, level: LogLevel) -> (r: LogEntry)
    ensures
        r.message@ == message@,
        r.level == level,
{
    LogEntry { message: string_of(&message), level }
}

fn text_line(s: &str, level: LogLevel) -> (r: LogEntry)
    ensures
        r.message@ == s@,
        r.level == level,
{
    let mut m: Vec<char> = Vec::new();
    push_str(&mut m, s);
    proof {
        assert(m@ =~= s@);
    }
    line(m, level)
}

fn start_line(i: usize, n: usize, name: &String) -> (r: LogEntry)
    ensures
        r.message@ == item_message(i as nat, n as nat, name@),
        r.level == LogLevel::Info,
{
    let mut m: Vec<char> = Vec::new();
    push_str(&mut m, "Processing item ");
    push_decimal(&mut m, i as u64);
    m.push('/');
    push_decimal(&mut m, n as u64);
    push_str(&mut m, ": ");
    push_str(&mut m, name.as_str());
    proof {
        assert(m@ =~= item_message(i as nat, n as nat, name@));
    }
    line(m, LogLevel::Info)
}

fn done_line(name: &String) -> (r: LogEntry)
    ensures
        r.message@ == done_message(name@),
        r.level == LogLevel::Info,
{
    let mut m: Vec<char> = Vec::new();
    push_str(&mut m, "Completed: ");
    push_str(&mut m, name.as_str());
    proof {
        assert(m@ =~= done_message(name@));
    }
    line(m, LogLevel::Info)
}

fn stage_start(stage: Stage) -> (r: u8)
    ensures
        r as nat == stage_progress(stage),
{
    match stage {
        Stage::Read => 0,
        Stage::Normalize => 5,
        Stage::Synthesize => 10,
        Stage::ConvertFormat => 40,
        Stage::Subtitle => 50,
        Stage::Video => 70,
    }
}

fn stage_label(stage: Stage) -> (r: &'static str)
    ensures
        r@ == stage_message(stage),
{
    match stage {
        Stage::Read => "Reading source file...",
        Stage::Normalize => "Cleaning text...",
        Stage::Synthesize => "Generating audio...",
        Stage::ConvertFormat => "Converting audio format...",
        Stage::Subtitle => "Generating subtitles...",
        Stage::Video => "Starting video generation...",
    }
}

fn progress_of(index: usize, within: u8, total: usize) -> (r: u8)
    requires
        within <= 100,
        index < total || (index == total && within == 0),
    ensures
        r as nat == progress_at(index as nat, within as nat, total as nat),
{
    if total == 0 {
        return 100;
    }
    proof {
        if index < total {
            lemma_progress_bound(index as nat, within as nat, total as nat);
        } else {
            assert(progress_at(index as nat, 0, total as nat) == 100) by (nonlinear_arith)
                requires
                    index == total,
                    total > 0,
            {}
        }
    }
    (((index as u128) * 100 + (within as u128)) / (total as u128)) as u8
}

impl BatchProcessor {
    /// A batch of the items named `names` (their file names, as the log shows
    /// them), not started yet.
    pub fn new(names: Vec<String>) -> (r: BatchProcessor)
        ensures
            r@ == (BatchModel {
                total: names@.len(),
                names: names@.map_values(|n: String| n@),
                next: 0,
                in_item: false,
                completed: 0,
                progress: 0,
                status: BatchStatus::Idle,
                log: Seq::empty(),
            }),
            model_wf(r@),
    {
        let total = names.len();
        let r = BatchProcessor {
            total,
            names,
            next: 0,
            in_item: false,
            completed: 0,
            progress: 0,
            status: BatchStatus::Idle,
            log: Vec::new(),
        };
        proof {
            assert(log_view(r.log@) =~= Seq::<(Seq<char>, LogLevel)>::empty());
        }
        r
    }

    pub fn status(&self) -> (r: BatchStatus)
        ensures
            r == self@.status,
    {
        self.status
    }

    pub fn progress(&self) -> (r: u8)
        ensures
            r as nat == self@.progress,
    {
        self.progress
    }

    /// Items converted successfully so far.
    pub fn completed(&self) -> (r: usize)
        ensures
            r as nat == self@.completed,
    {
        self.completed
    }

    pub fn log(&self) -> (r: &[LogEntry])
        ensures
            log_view(r@) == self@.log,
    {
        self.log.as_slice()
    }

    fn push_log(&mut self, e: LogEntry)
        ensures
            final(self)@ == (BatchModel { log: old(self)@.log.push((e.message@, e.level)), ..old(self)@ }),
    {
        let ghost before = log_view(self.log@);
        self.log.push(e);
        proof {
            assert(log_view(self.log@) =~= before.push((e.message@, e.level)));
        }
    }

    /// Applies one report of the caller and answers what to do next.
    pub fn handle(&mut self, e: Event) -> (r: Action)
        requires
            model_wf(old(self)@),
        ensures
            (final(self)@, r) == transition(old(self)@, e),
            model_wf(final(self)@),
    {
        proof {
            lemma_transition_wf(self@, e);
        }
        match e {
            Event::Start => {
                if self.status == BatchStatus::Idle {
                    self.status = BatchStatus::Running;
                    Action::Continue
                } else {
                    Action::Ignored
                }
            },
            Event::Boundary { cancel } => {
                if self.status != BatchStatus::Running || self.in_item {
                    Action::Ignored
                } else if cancel {
                    self.status = BatchStatus::Cancelled;
                    self.in_item = false;
                    self.push_log(text_line("Processing cancelled by user", LogLevel::Notice));
                    Action::Stop(BatchStatus::Cancelled)
                } else if self.next >= self.total {
                    self.status = BatchStatus::Completed;
                    self.progress = 100;
                    self.push_log(text_line("All items processed successfully!", LogLevel::Info));
                    Action::Stop(BatchStatus::Completed)
                } else {
                    self.in_item = true;
                    let entry = start_line(self.next + 1, self.total, &self.names[self.next]);
                    self.push_log(entry);
                    Action::Process(self.next)
                }
            },
            Event::Enter { stage, cancel } => {
                if self.status != BatchStatus::Running || !self.in_item {
                    Action::Ignored
                } else if cancel {
                    self.status = BatchStatus::Cancelled;
                    self.in_item = false;
                    self.push_log(text_line("Processing cancelled by user", LogLevel::Notice));
                    Action::Stop(BatchStatus::Cancelled)
                } else {
                    let p = progress_of(self.next, stage_start(stage), self.total);
                    if p > self.progress {
                        self.progress = p;
                    }
                    self.push_log(text_line(stage_label(stage), LogLevel::Info));
                    Action::Continue
                }
            },
            Event::ItemDone => {
                if self.status != BatchStatus::Running || !self.in_item {
                    Action::Ignored
                } else {
                    let entry = done_line(&self.names[self.next]);
                    let p = progress_of(self.next + 1, 0, self.total);
                    if p > self.progress {
                        self.progress = p;
                    }
                    self.next = self.next + 1;
                    self.completed = self.completed + 1;
                    self.in_item = false;
                    self.push_log(entry);
                    Action::Continue
                }
            },
            Event::ItemFailed { kind, reason } => {
                if self.status != BatchStatus::Running || !self.in_item {
                    Action::Ignored
                } else if kind.skips_item() {
                    let p = progress_of(self.next + 1, 0, self.total);
                    if p > self.progress {
                        self.progress = p;
                    }
                    self.next = self.next + 1;
                    self.in_item = false;
                    self.push_log(LogEntry { message: reason, level: LogLevel::Error });
                    Action::Continue
                } else {
                    self.status = BatchStatus::Failed;
                    self.in_item = false;
                    self.push_log(LogEntry { message: reason, level: LogLevel::Error });
                    Action::Stop(BatchStatus::Failed)
                }
            },
        }
    }
}

} // verus!
