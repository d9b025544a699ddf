use vstd::prelude::*;
use vstd::string::*;
use crate::app::{MsgV, RunnerMessage, Verifier, VerifierStatus, VerifierV, view_msgs,
    view_verifiers};
use crate::file_manager::{spec_parse_checkboxes, spec_uncheck, view_entries, FileManager};

verus! {

/// The hard cap on worker/verifier iterations per run.
pub const MAX_ITERATIONS: u32 = 10;

// ---------------------------------------------------------------------------
// Decimal rendering of iteration numbers
// ---------------------------------------------------------------------------

/// The decimal digit character for `d` in 0..10.
pub open spec fn spec_digit_char(d: int) -> char {
    if d == 0 {
        '0'
    } else if d == 1 {
        '1'
    } else if d == 2 {
        '2'
    } else if d == 3 {
        '3'
    } else if d == 4 {
        '4'
    } else if d == 5 {
        '5'
    } else if d == 6 {
        '6'
    } else if d == 7 {
        '7'
    } else if d == 8 {
        '8'
    } else {
        '9'
    }
}

/// The usual decimal rendering of a non-negative integer.
pub open spec fn spec_dec(n: int) -> Seq<char>
    decreases n,
{
    if n < 10 {
        seq![spec_digit_char(n)]
    } else {
        spec_dec(n / 10) + seq![spec_digit_char(n % 10)]
    }
}

fn append_digit(s: &mut String, d: u32)
    requires
        d < 10,
    ensures
        final(s)@ == old(s)@ + seq![spec_digit_char(d as int)],
{
    if d == 0 {
        s.append("0");
        proof {
            reveal_strlit("0");
            assert("0"@ =~= seq!['0']);
        }
    } else if d == 1 {
        s.append("1");
        proof {
            reveal_strlit("1");
            assert("1"@ =~= seq!['1']);
        }
    } else if d == 2 {
        s.append("2");
        proof {
            reveal_strlit("2");
            assert("2"@ =~= seq!['2']);
        }
    } else if d == 3 {
        s.append("3");
        proof {
            reveal_strlit("3");
            assert("3"@ =~= seq!['3']);
        }
    } else if d == 4 {
        s.append("4");
        proof {
            reveal_strlit("4");
            assert("4"@ =~= seq!['4']);
        }
    } else if d == 5 {
        s.append("5");
        proof {
            reveal_strlit("5");
            assert("5"@ =~= seq!['5']);
        }
    } else if d == 6 {
        s.append("6");
        proof {
            reveal_strlit("6");
            assert("6"@ =~= seq!['6']);
        }
    } else if d == 7 {
        s.append("7");
        proof {
            reveal_strlit("7");
            assert("7"@ =~= seq!['7']);
        }
    } else if d == 8 {
        s.append("8");
        proof {
            reveal_strlit("8");
            assert("8"@ =~= seq!['8']);
        }
    } else {
        s.append("9");
        proof {
            reveal_strlit("9");
            assert("9"@ =~= seq!['9']);
        }
    }
}

fn append_dec(s: &mut String, n: u32)
    ensures
        final(s)@ == old(s)@ + spec_dec(n as int),
    decreases n,
{
    if n >= 10 {
        append_dec(s, n / 10);
        append_digit(s, n % 10);
        proof {
            assert(s@ =~= old(s)@ + spec_dec(n as int));
        }
    } else {
        append_digit(s, n);
    }
}

/// Render `n` in decimal.
pub fn u32_to_string(n: u32) -> (s: String)
    ensures
        s@ == spec_dec(n as int),
{
    let mut s = String::new();
    append_dec(&mut s, n);
    proof {
        assert(s@ =~= spec_dec(n as int));
    }
    s
}

// ---------------------------------------------------------------------------
// The orchestration state machine
//
// The loop itself performs no I/O.  Each call of `step` consumes the outcome
// of the previous outside action (a CLI run, a file read, a file write) and
// returns the messages to emit plus the next action to perform.  The caller
// owns the channel, the child processes and the file.
// ---------------------------------------------------------------------------

/// Where the run stands: which outside action is outstanding.
#[derive(Clone, Copy, Debug, PartialEq, Eq, Structural)]
pub enum Phase {
    /// The worker CLI call of the current iteration is outstanding.
    AwaitWorker,
    /// The CLI call for verifier `idx` is outstanding.
    AwaitVerifierCli,
    /// The file read that checks verifier `idx`'s box is outstanding.
    AwaitVerifierRead,
    /// The file read that precedes unchecking is outstanding.
    AwaitUncheckRead,
    /// The file write of the unchecked contents is outstanding.
    AwaitUncheckWrite,
    /// The run is over; no further action follows.
    Finished,
}

/// The next outside action the caller must perform.
pub enum Action {
    /// Run the external CLI with this prompt and report `Event::CliDone`.
    RunCli(String),
    /// Read the scratch file and report `Event::ReadDone`.
    ReadFile,
    /// Overwrite the scratch file with these contents and report
    /// `Event::WriteDone`.
    WriteFile(String),
    /// The run is over.
    Stop,
}

/// The mathematical view of an action.
pub enum ActionV {
    RunCli(Seq<char>),
    ReadFile,
    WriteFile(Seq<char>),
    Stop,
}

impl View for Action {
    type V = ActionV;

    open spec fn view(&self) -> ActionV {
        match self {
            Action::RunCli(p) => ActionV::RunCli(p@),
            Action::ReadFile => ActionV::ReadFile,
            Action::WriteFile(c) => ActionV::WriteFile(c@),
            Action::Stop => ActionV::Stop,
        }
    }
}

/// The outcome of an outside action, reported back to the machine.
pub enum Event {
    /// The CLI call finished: captured stdout, or a failure description.
    CliDone(Result<String, String>),
    /// The file read finished: the contents, or a failure description.
    ReadDone(Result<String, String>),
    /// The file write finished.
    WriteDone(Result<(), String>),
}

/// The mathematical view of an event.
pub enum EventV {
    CliDone(Result<Seq<char>, Seq<char>>),
    ReadDone(Result<Seq<char>, Seq<char>>),
    WriteDone(Result<(), Seq<char>>),
}

impl View for Event {
    type V = EventV;

    open spec fn view(&self) -> EventV {
        match self {
            Event::CliDone(Ok(s)) => EventV::CliDone(Ok(s@)),
            Event::CliDone(Err(e)) => EventV::CliDone(Err(e@)),
            Event::ReadDone(Ok(s)) => EventV::ReadDone(Ok(s@)),
            Event::ReadDone(Err(e)) => EventV::ReadDone(Err(e@)),
            Event::WriteDone(Ok(u)) => EventV::WriteDone(Ok(*u)),
            Event::WriteDone(Err(e)) => EventV::WriteDone(Err(e@)),
        }
    }
}

/// The orchestration loop's state: the run's fixed inputs plus where the
/// current iteration stands.
pub struct Runner {
    /// Path of the shared scratch file, as handed to the prompts.
    pub file_path: String,
    /// The user's task prompt.  It reaches the worker only through the
    /// scratch file, which already contains it; the templates deliberately
    /// only point at the file.
    pub task_prompt: String,
    /// The enabled verifiers, in order.
    pub verifiers: Vec<Verifier>,
    pub phase: Phase,
    /// Current iteration, 1-based.
    pub iteration: u32,
    /// Current verifier index during the verifier phase.
    pub idx: usize,
    /// Whether every verifier so far passed in this iteration.
    pub all_passed: bool,
}

/// The mathematical view of the machine state.
#[verifier::ext_equal]
pub struct RunnerV {
    pub file_path: Seq<char>,
    pub task_prompt: Seq<char>,
    pub verifiers: Seq<VerifierV>,
    pub phase: Phase,
    pub iteration: int,
    pub idx: int,
    pub all_passed: bool,
}

impl View for Runner {
    type V = RunnerV;

    open spec fn view(&self) -> RunnerV {
        RunnerV {
            file_path: self.file_path@,
            task_prompt: self.task_prompt@,
            verifiers: view_verifiers(self.verifiers@),
            phase: self.phase,
            iteration: self.iteration as int,
            idx: self.idx as int,
            all_passed: self.all_passed,
        }
    }
}

/// The state a fresh run starts in.
pub open spec fn spec_init(
    file_path: Seq<char>,
    task_prompt: Seq<char>,
    verifiers: Seq<VerifierV>,
) -> RunnerV {
    RunnerV {
        file_path,
        task_prompt,
        verifiers,
        phase: Phase::AwaitWorker,
        iteration: 1,
        idx: 0,
        all_passed: true,
    }
}

/// Well-formedness of a machine state: the iteration counter stays within
/// the cap and the verifier index is in range whenever it is in use.
pub open spec fn spec_wf(r: RunnerV) -> bool {
    &&& 1 <= r.iteration <= MAX_ITERATIONS
    &&& (r.phase == Phase::AwaitVerifierCli || r.phase == Phase::AwaitVerifierRead) ==> r.idx
        < r.verifiers.len()
    &&& 0 <= r.idx
}

// ---------------------------------------------------------------------------
// Prompt templates and message texts
// ---------------------------------------------------------------------------

/// The worker prompt: point the agent at the scratch file and ask for an
/// appended work section, leaving the checkbox lines alone.
pub open spec fn spec_worker_prompt(path: Seq<char>) -> Seq<char> {
    "You are a worker agent. Read the file at "@ + path
        + " and follow the instructions in it. Do the work described by the prompt in the file. When you are done, append a section to the file in this format:\n\n=== worker ===\n<describe what you did>\n\nImportant: Do NOT modify the checkbox lines at the top of the file. Only append your work section."@
}

/// The verifier prompt: name, criteria, and the exact checkbox edit to make
/// on success.
pub open spec fn spec_verifier_prompt(
    name: Seq<char>,
    path: Seq<char>,
    criteria: Seq<char>,
) -> Seq<char> {
    "You are a verifier agent named '"@ + name + "'. Read the file at "@ + path
        + ".\n\nYour verification criteria: "@ + criteria
        + "\n\nInstructions:\n1. Read the file and evaluate the worker's output against your criteria.\n2. If the work PASSES your verification:\n   - Edit the file to change the line '[] "@
        + name + "' to '[x] "@ + name
        + "'\n3. If the work FAILS your verification:\n   - Do NOT check the checkbox (leave it as '[] "@
        + name + "')\n   - Append a section to the file:\n     === "@ + name
        + " ===\n     <explain why it failed and what needs to be fixed>\n\nOnly modify YOUR checkbox line. Do not touch other verifiers' checkboxes."@
}

pub open spec fn spec_iter_banner(k: int) -> Seq<char> {
    "--- Iteration "@ + spec_dec(k) + " ---"@
}

pub open spec fn spec_msg_worker_failed(e: Seq<char>) -> Seq<char> {
    "Worker failed: "@ + e
}

pub open spec fn spec_msg_verifier_failed_run(name: Seq<char>, e: Seq<char>) -> Seq<char> {
    "Verifier '"@ + name + "' failed to run: "@ + e
}

pub open spec fn spec_msg_running(name: Seq<char>) -> Seq<char> {
    "Running verifier: "@ + name + "..."@
}

pub open spec fn spec_msg_passed(name: Seq<char>) -> Seq<char> {
    name + ": PASSED"@
}

pub open spec fn spec_msg_failed(name: Seq<char>) -> Seq<char> {
    name + ": FAILED"@
}

pub open spec fn spec_msg_parse_failed(e: Seq<char>) -> Seq<char> {
    "Failed to parse checkboxes: "@ + e
}

pub open spec fn spec_msg_uncheck_failed(e: Seq<char>) -> Seq<char> {
    "Failed to uncheck boxes: "@ + e
}

pub open spec fn spec_msg_cap() -> Seq<char> {
    "Reached maximum iterations ("@ + spec_dec(MAX_ITERATIONS as int) + "). Stopping."@
}

// ---------------------------------------------------------------------------
// The transition function
// ---------------------------------------------------------------------------

/// Whether the first entry named `name` in a parsed checkbox list is
/// checked; false when no entry has that name.
pub open spec fn spec_find_checked(entries: Seq<(Seq<char>, bool)>, name: Seq<char>) -> bool
    decreases entries.len(),
{
    if entries.len() == 0 {
        false
    } else if entries[0].0 == name {
        entries[0].1
    } else {
        spec_find_checked(entries.drop_first(), name)
    }
}

/// The messages that open iteration `k`.
pub open spec fn spec_begin_iter(k: int) -> Seq<MsgV> {
    seq![
        MsgV::IterationStart(k),
        MsgV::Log(spec_iter_banner(k)),
        MsgV::Log("Starting worker..."@),
    ]
}

/// The messages that announce verifier `i` starting.
pub open spec fn spec_start_verifier(r: RunnerV, i: int) -> Seq<MsgV> {
    seq![
        MsgV::VerifierStatusUpdate { index: i, status: VerifierStatus::Running },
        MsgV::Log(spec_msg_running(r.verifiers[i].name)),
    ]
}

/// After verifier `idx` is settled: either move on to the next verifier, or
/// decide the iteration (success, or uncheck and retry).
pub open spec fn spec_advance(r: RunnerV, msgs: Seq<MsgV>) -> (RunnerV, Seq<MsgV>, ActionV) {
    let i = r.idx;
    let n = r.verifiers.len() as int;
    if i + 1 < n {
        (
            RunnerV { idx: i + 1, phase: Phase::AwaitVerifierCli, ..r },
            msgs + spec_start_verifier(r, i + 1),
            ActionV::RunCli(
                spec_verifier_prompt(
                    r.verifiers[i + 1].name,
                    r.file_path,
                    r.verifiers[i + 1].prompt,
                ),
            ),
        )
    } else if r.all_passed {
        (
            RunnerV { phase: Phase::Finished, ..r },
            msgs + seq![MsgV::FileUpdated, MsgV::Done],
            ActionV::Stop,
        )
    } else {
        (
            RunnerV { phase: Phase::AwaitUncheckRead, ..r },
            msgs + seq![
                MsgV::Log("Not all verifiers passed. Unchecking all boxes and retrying..."@),
            ],
            ActionV::ReadFile,
        )
    }
}

/// Which event kind a phase is waiting for.
pub open spec fn spec_event_fits(phase: Phase, ev: EventV) -> bool {
    match phase {
        Phase::AwaitWorker => ev is CliDone,
        Phase::AwaitVerifierCli => ev is CliDone,
        Phase::AwaitVerifierRead => ev is ReadDone,
        Phase::AwaitUncheckRead => ev is ReadDone,
        Phase::AwaitUncheckWrite => ev is WriteDone,
        Phase::Finished => false,
    }
}

/// One transition of the orchestration loop: from the current state and the
/// outcome of the outstanding action, to the new state, the messages to
/// emit (in order), and the next action.
#[verifier::opaque]
pub open spec fn spec_step(r: RunnerV, ev: EventV) -> (RunnerV, Seq<MsgV>, ActionV) {
    match (r.phase, ev) {
        (Phase::AwaitWorker, EventV::CliDone(res)) => match res {
            Ok(_) => {
                let msgs = seq![MsgV::Log("Worker complete."@), MsgV::FileUpdated];
                if r.verifiers.len() == 0 {
                    (
                        RunnerV { phase: Phase::Finished, ..r },
                        msgs + seq![MsgV::FileUpdated, MsgV::Done],
                        ActionV::Stop,
                    )
                } else {
                    (
                        RunnerV { phase: Phase::AwaitVerifierCli, idx: 0, ..r },
                        msgs + spec_start_verifier(r, 0),
                        ActionV::RunCli(
                            spec_verifier_prompt(
                                r.verifiers[0].name,
                                r.file_path,
                                r.verifiers[0].prompt,
                            ),
                        ),
                    )
                }
            },
            Err(e) => (
                RunnerV { phase: Phase::Finished, ..r },
                seq![MsgV::Error(spec_msg_worker_failed(e))],
                ActionV::Stop,
            ),
        },
        (Phase::AwaitVerifierCli, EventV::CliDone(res)) => match res {
            Ok(_) => (
                RunnerV { phase: Phase::AwaitVerifierRead, ..r },
                seq![MsgV::FileUpdated],
                ActionV::ReadFile,
            ),
            Err(e) => spec_advance(
                RunnerV { all_passed: false, ..r },
                seq![
                    MsgV::Error(spec_msg_verifier_failed_run(r.verifiers[r.idx].name, e)),
                    MsgV::VerifierStatusUpdate { index: r.idx, status: VerifierStatus::Failed },
                ],
            ),
        },
        (Phase::AwaitVerifierRead, EventV::ReadDone(res)) => match res {
            Ok(c) => {
                let name = r.verifiers[r.idx].name;
                if spec_find_checked(spec_parse_checkboxes(c), name) {
                    spec_advance(
                        r,
                        seq![
                            MsgV::VerifierStatusUpdate {
                                index: r.idx,
                                status: VerifierStatus::Passed,
                            },
                            MsgV::Log(spec_msg_passed(name)),
                        ],
                    )
                } else {
                    spec_advance(
                        RunnerV { all_passed: false, ..r },
                        seq![
                            MsgV::VerifierStatusUpdate {
                                index: r.idx,
                                status: VerifierStatus::Failed,
                            },
                            MsgV::Log(spec_msg_failed(name)),
                        ],
                    )
                }
            },
            Err(e) => spec_advance(
                RunnerV { all_passed: false, ..r },
                seq![
                    MsgV::Error(spec_msg_parse_failed(e)),
                    MsgV::VerifierStatusUpdate { index: r.idx, status: VerifierStatus::Failed },
                    MsgV::Log(spec_msg_failed(r.verifiers[r.idx].name)),
                ],
            ),
        },
        (Phase::AwaitUncheckRead, EventV::ReadDone(res)) => match res {
            Ok(c) => (
                RunnerV { phase: Phase::AwaitUncheckWrite, ..r },
                Seq::<MsgV>::empty(),
                ActionV::WriteFile(spec_uncheck(c)),
            ),
            Err(e) => (
                RunnerV { phase: Phase::Finished, ..r },
                seq![MsgV::Error(spec_msg_uncheck_failed(e))],
                ActionV::Stop,
            ),
        },
        (Phase::AwaitUncheckWrite, EventV::WriteDone(res)) => match res {
            Ok(_) => {
                if r.iteration < MAX_ITERATIONS {
                    (
                        RunnerV {
                            phase: Phase::AwaitWorker,
                            iteration: r.iteration + 1,
                            idx: 0,
                            all_passed: true,
                            ..r
                        },
                        seq![MsgV::FileUpdated] + spec_begin_iter(r.iteration + 1),
                        ActionV::RunCli(spec_worker_prompt(r.file_path)),
                    )
                } else {
                    (
                        RunnerV { phase: Phase::Finished, ..r },
                        seq![MsgV::FileUpdated, MsgV::Error(spec_msg_cap())],
                        ActionV::Stop,
                    )
                }
            },
            Err(e) => (
                RunnerV { phase: Phase::Finished, ..r },
                seq![MsgV::Error(spec_msg_uncheck_failed(e))],
                ActionV::Stop,
            ),
        },
        _ => (r, Seq::<MsgV>::empty(), ActionV::Stop),
    }
}

// ---------------------------------------------------------------------------
// Executable message and prompt builders
// ---------------------------------------------------------------------------

fn msg_running(name: &String) -> (s: String)
    ensures
        s@ == spec_msg_running(name@),
{
    let mut s = String::from_str("Running verifier: ");
    s.append(name.as_str());
    s.append("...");
    proof {
        assert(s@ =~= spec_msg_running(name@));
    }
    s
}

fn msg_passed(name: &String) -> (s: String)
    ensures
        s@ == spec_msg_passed(name@),
{
    let mut s = name.clone();
    s.append(": PASSED");
    s
}

fn msg_failed(name: &String) -> (s: String)
    ensures
        s@ == spec_msg_failed(name@),
{
    let mut s = name.clone();
    s.append(": FAILED");
    s
}

fn msg_worker_failed(e: &String) -> (s: String)
    ensures
        s@ == spec_msg_worker_failed(e@),
{
    let mut s = String::from_str("Worker failed: ");
    s.append(e.as_str());
    s
}

fn msg_verifier_failed_run(name: &String, e: &String) -> (s: String)
    ensures
        s@ == spec_msg_verifier_failed_run(name@, e@),
{
    let mut s = String::from_str("Verifier '");
    s.append(name.as_str());
    s.append("' failed to run: ");
    s.append(e.as_str());
    proof {
        assert(s@ =~= spec_msg_verifier_failed_run(name@, e@));
    }
    s
}

fn msg_parse_failed(e: &String) -> (s: String)
    ensures
        s@ == spec_msg_parse_failed(e@),
{
    let mut s = String::from_str("Failed to parse checkboxes: ");
    s.append(e.as_str());
    s
}

fn msg_uncheck_failed(e: &String) -> (s: String)
    ensures
        s@ == spec_msg_uncheck_failed(e@),
{
    let mut s = String::from_str("Failed to uncheck boxes: ");
    s.append(e.as_str());
    s
}

fn msg_cap() -> (s: String)
    ensures
        s@ == spec_msg_cap(),
{
    let mut s = String::from_str("Reached maximum iterations (");
    append_dec(&mut s, MAX_ITERATIONS);
    s.append("). Stopping.");
    proof {
        assert(s@ =~= spec_msg_cap());
    }
    s
}

fn iter_banner(k: u32) -> (s: String)
    ensures
        s@ == spec_iter_banner(k as int),
{
    let mut s = String::from_str("--- Iteration ");
    append_dec(&mut s, k);
    s.append(" ---");
    proof {
        assert(s@ =~= spec_iter_banner(k as int));
    }
    s
}

impl Runner {
    /// A fresh run over the given scratch file and verifier list.  The
    /// verifiers must already be filtered to the enabled ones, in order.
    pub fn new(file_path: String, task_prompt: String, verifiers: Vec<Verifier>) -> (r: Runner)
        ensures
            r@ == spec_init(file_path@, task_prompt@, view_verifiers(verifiers@)),
    {
        Runner {
            file_path,
            task_prompt,
            verifiers,
            phase: Phase::AwaitWorker,
            iteration: 1,
            idx: 0,
            all_passed: true,
        }
    }

    /// The worker prompt for this run.
    fn worker_prompt(&self) -> (s: String)
        ensures
            s@ == spec_worker_prompt(self@.file_path),
    {
        let mut s = String::from_str("You are a worker agent. Read the file at ");
        s.append(self.file_path.as_str());
        s.append(
            " and follow the instructions in it. Do the work described by the prompt in the file. When you are done, append a section to the file in this format:\n\n=== worker ===\n<describe what you did>\n\nImportant: Do NOT modify the checkbox lines at the top of the file. Only append your work section.",
        );
        proof {
            assert(s@ =~= spec_worker_prompt(self@.file_path));
        }
        s
    }

    /// The prompt for verifier `i`.
    fn verifier_prompt(&self, i: usize) -> (s: String)
        requires
            i < self@.verifiers.len(),
        ensures
            s@ == spec_verifier_prompt(
                self@.verifiers[i as int].name,
                self@.file_path,
                self@.verifiers[i as int].prompt,
            ),
    {
        proof {
            assert(self@.verifiers[i as int] == self.verifiers@[i as int]@);
        }
        let mut s = String::from_str("You are a verifier agent named '");
        s.append(self.verifiers[i].name.as_str());
        s.append("'. Read the file at ");
        s.append(self.file_path.as_str());
        s.append(".\n\nYour verification criteria: ");
        s.append(self.verifiers[i].prompt.as_str());
        s.append(
            "\n\nInstructions:\n1. Read the file and evaluate the worker's output against your criteria.\n2. If the work PASSES your verification:\n   - Edit the file to change the line '[] ",
        );
        s.append(self.verifiers[i].name.as_str());
        s.append("' to '[x] ");
        s.append(self.verifiers[i].name.as_str());
        s.append(
            "'\n3. If the work FAILS your verification:\n   - Do NOT check the checkbox (leave it as '[] ",
        );
        s.append(self.verifiers[i].name.as_str());
        s.append("')\n   - Append a section to the file:\n     === ");
        s.append(self.verifiers[i].name.as_str());
        s.append(
            " ===\n     <explain why it failed and what needs to be fixed>\n\nOnly modify YOUR checkbox line. Do not touch other verifiers' checkboxes.",
        );
        proof {
            assert(s@ =~= spec_verifier_prompt(
                self@.verifiers[i as int].name,
                self@.file_path,
                self@.verifiers[i as int].prompt,
            ));
        }
        s
    }

    /// The messages and action that open a run: announce iteration 1 and
    /// ask for the worker CLI call.
    pub fn start(&self) -> (out: (Vec<RunnerMessage>, Action))
        requires
            self@.phase == Phase::AwaitWorker,
        ensures
            view_msgs(out.0@) == spec_begin_iter(self@.iteration),
            out.1@ == ActionV::RunCli(spec_worker_prompt(self@.file_path)),
    {
        let mut msgs: Vec<RunnerMessage> = Vec::new();
        msgs.push(RunnerMessage::IterationStart(self.iteration));
        msgs.push(RunnerMessage::Log(iter_banner(self.iteration)));
        msgs.push(RunnerMessage::Log(String::from_str("Starting worker...")));
        let action = Action::RunCli(self.worker_prompt());
        proof {
            assert(view_msgs(msgs@) =~= spec_begin_iter(self@.iteration));
        }
        (msgs, action)
    }

    /// Move past verifier `idx`: on to the next verifier, or decide the
    /// iteration.
    fn advance(&mut self, msgs: &mut Vec<RunnerMessage>) -> (a: Action)
        requires
            old(self)@.idx < old(self)@.verifiers.len(),
        ensures
            ({
                let t = spec_advance(old(self)@, view_msgs(old(msgs)@));
                &&& final(self)@ == t.0
                &&& view_msgs(final(msgs)@) == t.1
                &&& a@ == t.2
            }),
    {
        let ghost pre = self@;
        let ghost m0 = view_msgs(msgs@);
        let n = self.verifiers.len();
        proof {
            assert(pre.verifiers.len() == self.verifiers@.len());
            assert(self.idx < n);
        }
        if self.idx + 1 < n {
            self.idx = self.idx + 1;
            self.phase = Phase::AwaitVerifierCli;
            msgs.push(
                RunnerMessage::VerifierStatusUpdate {
                    index: self.idx,
                    status: VerifierStatus::Running,
                },
            );
            msgs.push(RunnerMessage::Log(msg_running(&self.verifiers[self.idx].name)));
            let a = Action::RunCli(self.verifier_prompt(self.idx));
            proof {
                assert(self@.verifiers[pre.idx + 1] == self.verifiers@[pre.idx + 1]@);
                assert(self@ =~= spec_advance(pre, m0).0);
                assert(view_msgs(msgs@) =~= spec_advance(pre, m0).1);
            }
            a
        } else if self.all_passed {
            self.phase = Phase::Finished;
            msgs.push(RunnerMessage::FileUpdated);
            msgs.push(RunnerMessage::Done);
            proof {
                assert(self@ =~= spec_advance(pre, m0).0);
                assert(view_msgs(msgs@) =~= spec_advance(pre, m0).1);
            }
            Action::Stop
        } else {
            self.phase = Phase::AwaitUncheckRead;
            msgs.push(
                RunnerMessage::Log(
                    String::from_str(
                        "Not all verifiers passed. Unchecking all boxes and retrying...",
                    ),
                ),
            );
            proof {
                assert(self@ =~= spec_advance(pre, m0).0);
                assert(view_msgs(msgs@) =~= spec_advance(pre, m0).1);
            }
            Action::ReadFile
        }
    }

    /// One step of the loop: consume the outcome of the outstanding action,
    /// emit the corresponding messages, and return the next action.
    pub fn step(&mut self, ev: Event) -> (out: (Vec<RunnerMessage>, Action))
        requires
            spec_wf(old(self)@),
            spec_event_fits(old(self)@.phase, ev@),
        ensures
            ({
                let t = spec_step(old(self)@, ev@);
                &&& final(self)@ == t.0
                &&& view_msgs(out.0@) == t.1
                &&& out.1@ == t.2
            }),
            spec_wf(final(self)@),
    {
        proof {
            reveal(spec_step);
        }
        let ghost pre = self@;
        let ghost t = spec_step(pre, ev@);
        let mut msgs: Vec<RunnerMessage> = Vec::new();
        let action: Action;
        match self.phase {
            Phase::AwaitWorker => {
                match ev {
                    Event::CliDone(Ok(_)) => {
                        msgs.push(RunnerMessage::Log(String::from_str("Worker complete.")));
                        msgs.push(RunnerMessage::FileUpdated);
                        if self.verifiers.len() == 0 {
                            msgs.push(RunnerMessage::FileUpdated);
                            msgs.push(RunnerMessage::Done);
                            self.phase = Phase::Finished;
                            action = Action::Stop;
                        } else {
                            self.idx = 0;
                            self.phase = Phase::AwaitVerifierCli;
                            msgs.push(
                                RunnerMessage::VerifierStatusUpdate {
                                    index: 0,
                                    status: VerifierStatus::Running,
                                },
                            );
                            msgs.push(RunnerMessage::Log(msg_running(&self.verifiers[0].name)));
                            action = Action::RunCli(self.verifier_prompt(0));
                            proof {
                                assert(self@.verifiers[0] == self.verifiers@[0]@);
                            }
                        }
                    },
                    Event::CliDone(Err(e)) => {
                        msgs.push(RunnerMessage::Error(msg_worker_failed(&e)));
                        self.phase = Phase::Finished;
                        action = Action::Stop;
                    },
                    _ => {
                        proof {
                            assert(false);
                        }
                        action = Action::Stop;
                    },
                }
            },
            Phase::AwaitVerifierCli => {
                match ev {
                    Event::CliDone(Ok(_)) => {
                        msgs.push(RunnerMessage::FileUpdated);
                        self.phase = Phase::AwaitVerifierRead;
                        action = Action::ReadFile;
                    },
                    Event::CliDone(Err(e)) => {
                        proof {
                            assert(pre.verifiers[pre.idx] == self.verifiers@[pre.idx]@);
                        }
                        msgs.push(
                            RunnerMessage::Error(
                                msg_verifier_failed_run(&self.verifiers[self.idx].name, &e),
                            ),
                        );
                        msgs.push(
                            RunnerMessage::VerifierStatusUpdate {
                                index: self.idx,
                                status: VerifierStatus::Failed,
                            },
                        );
                        self.all_passed = false;
                        action = self.advance(&mut msgs);
                    },
                    _ => {
                        proof {
                            assert(false);
                        }
                        action = Action::Stop;
                    },
                }
            },
            Phase::AwaitVerifierRead => {
                match ev {
                    Event::ReadDone(Ok(c)) => {
                        proof {
                            assert(pre.verifiers[pre.idx] == self.verifiers@[pre.idx]@);
                        }
                        let entries = FileManager::parse_checkboxes(c.as_str());
                        let passed = Self::find_checked(&entries, &self.verifiers[self.idx].name);
                        if passed {
                            msgs.push(
                                RunnerMessage::VerifierStatusUpdate {
                                    index: self.idx,
                                    status: VerifierStatus::Passed,
                                },
                            );
                            msgs.push(
                                RunnerMessage::Log(msg_passed(&self.verifiers[self.idx].name)),
                            );
                        } else {
                            msgs.push(
                                RunnerMessage::VerifierStatusUpdate {
                                    index: self.idx,
                                    status: VerifierStatus::Failed,
                                },
                            );
                            msgs.push(
                                RunnerMessage::Log(msg_failed(&self.verifiers[self.idx].name)),
                            );
                            self.all_passed = false;
                        }
                        action = self.advance(&mut msgs);
                    },
                    Event::ReadDone(Err(e)) => {
                        proof {
                            assert(pre.verifiers[pre.idx] == self.verifiers@[pre.idx]@);
                        }
                        msgs.push(RunnerMessage::Error(msg_parse_failed(&e)));
                        msgs.push(
                            RunnerMessage::VerifierStatusUpdate {
                                index: self.idx,
                                status: VerifierStatus::Failed,
                            },
                        );
                        msgs.push(RunnerMessage::Log(msg_failed(&self.verifiers[self.idx].name)));
                        self.all_passed = false;
                        action = self.advance(&mut msgs);
                    },
                    _ => {
                        proof {
                            assert(false);
                        }
                        action = Action::Stop;
                    },
                }
            },
            Phase::AwaitUncheckRead => {
                match ev {
                    Event::ReadDone(Ok(c)) => {
                        let rewritten = FileManager::uncheck_all(c.as_str());
                        self.phase = Phase::AwaitUncheckWrite;
                        action = Action::WriteFile(rewritten);
                    },
                    Event::ReadDone(Err(e)) => {
                        msgs.push(RunnerMessage::Error(msg_uncheck_failed(&e)));
                        self.phase = Phase::Finished;
                        action = Action::Stop;
                    },
                    _ => {
                        proof {
                            assert(false);
                        }
                        action = Action::Stop;
                    },
                }
            },
            Phase::AwaitUncheckWrite => {
                match ev {
                    Event::WriteDone(Ok(_)) => {
                        msgs.push(RunnerMessage::FileUpdated);
                        if self.iteration < MAX_ITERATIONS {
                            self.iteration = self.iteration + 1;
                            self.idx = 0;
                            self.all_passed = true;
                            self.phase = Phase::AwaitWorker;
                            msgs.push(RunnerMessage::IterationStart(self.iteration));
                            msgs.push(RunnerMessage::Log(iter_banner(self.iteration)));
                            msgs.push(RunnerMessage::Log(String::from_str("Starting worker...")));
                            action = Action::RunCli(self.worker_prompt());
                        } else {
                            msgs.push(RunnerMessage::Error(msg_cap()));
                            self.phase = Phase::Finished;
                            action = Action::Stop;
                        }
                    },
                    Event::WriteDone(Err(e)) => {
                        msgs.push(RunnerMessage::Error(msg_uncheck_failed(&e)));
                        self.phase = Phase::Finished;
                        action = Action::Stop;
                    },
                    _ => {
                        proof {
                            assert(false);
                        }
                        action = Action::Stop;
                    },
                }
            },
            Phase::Finished => {
                proof {
                    assert(false);
                }
                action = Action::Stop;
            },
        }
        proof {
            assert(self@ =~= t.0);
            assert(view_msgs(msgs@) =~= t.1);
        }
        (msgs, action)
    }

    /// Whether the first entry named `name` in a parsed checkbox list is
    /// checked.
    fn find_checked(entries: &Vec<(String, bool)>, name: &String) -> (r: bool)
        ensures
            r == spec_find_checked(view_entries(entries@), name@),
    {
        let ghost es = view_entries(entries@);
        let mut i: usize = 0;
        proof {
            assert(es.skip(0) =~= es);
        }
        while i < entries.len()
            invariant
                i <= entries.len(),
                es == view_entries(entries@),
                spec_find_checked(es, name@) == spec_find_checked(es.skip(i as int), name@),
                forall|j: int| 0 <= j < i ==> (#[trigger] es[j]).0 != name@,
            decreases entries.len() - i,
        {
            proof {
                assert(es.skip(i as int)[0] == es[i as int]);
                assert(es[i as int] == (entries@[i as int].0@, entries@[i as int].1));
            }
            if entries[i].0 == *name {
                proof {
                    assert(es[i as int].0 == name@);
                }
                return entries[i].1;
            }
            proof {
                assert(es[i as int].0 != name@);
                assert(es.skip(i as int).drop_first() =~= es.skip(i + 1));
            }
            i += 1;
        }
        proof {
            assert(es.skip(entries@.len() as int) =~= Seq::<(Seq<char>, bool)>::empty());
        }
        false
    }
}

// ---------------------------------------------------------------------------
// Runs
//
// A run is the fold of `spec_step` over a sequence of events, starting from
// a fresh state; what the consumer sees is the concatenation of the opening
// messages and every step's messages.
// ---------------------------------------------------------------------------

/// The machine state after the first `k` events.
pub open spec fn spec_state_at(init: RunnerV, evs: Seq<EventV>, k: int) -> RunnerV
    decreases k,
{
    if k <= 0 {
        init
    } else {
        spec_step(spec_state_at(init, evs, k - 1), evs[k - 1]).0
    }
}

/// A run is valid when every event answers the action its state was
/// waiting for (which also means no event follows a finished run).
pub open spec fn spec_valid_run(init: RunnerV, evs: Seq<EventV>) -> bool {
    forall|k: int|
        0 <= k < evs.len() ==> spec_event_fits(
            spec_state_at(init, evs, k).phase,
            #[trigger] evs[k],
        )
}

/// Everything emitted over a run, in order: the opening messages of
/// iteration 1, then each step's messages.
pub open spec fn spec_emitted(init: RunnerV, evs: Seq<EventV>) -> Seq<MsgV>
    decreases evs.len(),
{
    if evs.len() == 0 {
        spec_begin_iter(init.iteration)
    } else {
        spec_emitted(init, evs.drop_last()) + spec_step(
            spec_state_at(init, evs, evs.len() - 1),
            evs.last(),
        ).1
    }
}

/// A fresh state: what `Runner::new` returns.
pub open spec fn spec_fresh(r: RunnerV) -> bool {
    &&& r.phase == Phase::AwaitWorker
    &&& r.iteration == 1
    &&& r.idx == 0
    &&& r.all_passed
}

/// The iteration tags announced in a message sequence, in order.
pub open spec fn spec_iter_starts(ms: Seq<MsgV>) -> Seq<int>
    decreases ms.len(),
{
    if ms.len() == 0 {
        Seq::<int>::empty()
    } else {
        (match ms[0] {
            MsgV::IterationStart(k) => seq![k],
            _ => Seq::<int>::empty(),
        }) + spec_iter_starts(ms.drop_first())
    }
}

/// The sequence 1, 2, ..., n.
pub open spec fn spec_consecutive(n: int) -> Seq<int> {
    Seq::new(n as nat, |i: int| i + 1)
}

pub proof fn lemma_iter_starts_concat(a: Seq<MsgV>, b: Seq<MsgV>)
    ensures
        spec_iter_starts(a + b) == spec_iter_starts(a) + spec_iter_starts(b),
    decreases a.len(),
{
    if a.len() == 0 {
        assert(a + b =~= b);
        assert(spec_iter_starts(a) + spec_iter_starts(b) =~= spec_iter_starts(b));
    } else {
        lemma_iter_starts_concat(a.drop_first(), b);
        assert((a + b).drop_first() =~= a.drop_first() + b);
        assert((a + b)[0] == a[0]);
        assert(spec_iter_starts(a + b) =~= spec_iter_starts(a) + spec_iter_starts(b));
    }
}

/// A message sequence without IterationStart announces no tags.
pub proof fn lemma_iter_starts_none(ms: Seq<MsgV>)
    requires
        forall|i: int| 0 <= i < ms.len() ==> !((#[trigger] ms[i]) is IterationStart),
    ensures
        spec_iter_starts(ms) == Seq::<int>::empty(),
    decreases ms.len(),
{
    if ms.len() > 0 {
        assert(!(ms[0] is IterationStart));
        assert forall|i: int| 0 <= i < ms.drop_first().len() implies !((#[trigger] ms.drop_first()[i]) is IterationStart) by {
            assert(ms.drop_first()[i] == ms[i + 1]);
        }
        lemma_iter_starts_none(ms.drop_first());
        assert(spec_iter_starts(ms) =~= Seq::<int>::empty());
    }
}

/// A message sequence with exactly one IterationStart announces its tag.
pub proof fn lemma_iter_starts_one(ms: Seq<MsgV>, j: int, k: int)
    requires
        0 <= j < ms.len(),
        ms[j] == MsgV::IterationStart(k),
        forall|i: int| 0 <= i < ms.len() && i != j ==> !((#[trigger] ms[i]) is IterationStart),
    ensures
        spec_iter_starts(ms) == seq![k],
    decreases ms.len(),
{
    if j == 0 {
        assert forall|i: int| 0 <= i < ms.drop_first().len() implies !((#[trigger] ms.drop_first()[i]) is IterationStart) by {
            assert(ms.drop_first()[i] == ms[i + 1]);
        }
        lemma_iter_starts_none(ms.drop_first());
        assert(spec_iter_starts(ms) =~= seq![k]);
    } else {
        assert(!(ms[0] is IterationStart));
        assert(ms.drop_first()[j - 1] == ms[j]);
        assert forall|i: int| 0 <= i < ms.drop_first().len() && i != j - 1 implies !((#[trigger] ms.drop_first()[i]) is IterationStart) by {
            assert(ms.drop_first()[i] == ms[i + 1]);
        }
        lemma_iter_starts_one(ms.drop_first(), j - 1, k);
        assert(spec_iter_starts(ms) =~= seq![k]);
    }
}

/// Facts about one `spec_advance`: configuration and iteration are kept, no
/// iteration is announced, and `Done` can only close the run, as the last
/// message.
proof fn lemma_advance_facts(r: RunnerV, msgs0: Seq<MsgV>)
    requires
        0 <= r.idx < r.verifiers.len(),
        1 <= r.iteration <= MAX_ITERATIONS,
        forall|i: int| 0 <= i < msgs0.len() ==> !((#[trigger] msgs0[i]) is IterationStart),
        forall|i: int| 0 <= i < msgs0.len() ==> !((#[trigger] msgs0[i]) is Done),
    ensures
        ({
            let (r2, ms, a) = spec_advance(r, msgs0);
            &&& spec_wf(r2)
            &&& r2.file_path == r.file_path
            &&& r2.task_prompt == r.task_prompt
            &&& r2.verifiers == r.verifiers
            &&& r2.iteration == r.iteration
            &&& spec_iter_starts(ms) == Seq::<int>::empty()
            &&& (forall|i: int|
                0 <= i < ms.len() && (#[trigger] ms[i]) is Done ==> i == ms.len() - 1 && r2.phase
                    == Phase::Finished)
            &&& (r2.phase == Phase::Finished ==> ms.len() > 0 && (ms.last() is Done
                || ms.last() is Error))
        }),
{
    let (r2, ms, a) = spec_advance(r, msgs0);
    let i = r.idx;
    let n = r.verifiers.len() as int;
    if i + 1 < n {
        let suffix = spec_start_verifier(r, i + 1);
        assert(ms == msgs0 + suffix);
        assert forall|j: int| 0 <= j < ms.len() implies !((#[trigger] ms[j]) is IterationStart) by {
            if j < msgs0.len() {
                assert(ms[j] == msgs0[j]);
            } else {
                assert(ms[j] == suffix[j - msgs0.len()]);
            }
        }
        lemma_iter_starts_none(ms);
        assert forall|j: int| 0 <= j < ms.len() implies !((#[trigger] ms[j]) is Done) by {
            if j < msgs0.len() {
                assert(ms[j] == msgs0[j]);
            } else {
                assert(ms[j] == suffix[j - msgs0.len()]);
            }
        }
    } else if r.all_passed {
        let suffix = seq![MsgV::FileUpdated, MsgV::Done];
        assert(ms == msgs0 + suffix);
        assert forall|j: int| 0 <= j < ms.len() implies !((#[trigger] ms[j]) is IterationStart) by {
            if j < msgs0.len() {
                assert(ms[j] == msgs0[j]);
            } else {
                assert(ms[j] == suffix[j - msgs0.len()]);
            }
        }
        lemma_iter_starts_none(ms);
        assert forall|j: int|
            0 <= j < ms.len() && (#[trigger] ms[j]) is Done implies j == ms.len() - 1 && r2.phase
            == Phase::Finished by {
            if j < msgs0.len() {
                assert(ms[j] == msgs0[j]);
            } else {
                assert(ms[j] == suffix[j - msgs0.len()]);
            }
        }
        assert(ms.last() == MsgV::Done);
    } else {
        let suffix = seq![
            MsgV::Log("Not all verifiers passed. Unchecking all boxes and retrying..."@),
        ];
        assert(ms == msgs0 + suffix);
        assert forall|j: int| 0 <= j < ms.len() implies !((#[trigger] ms[j]) is IterationStart) by {
            if j < msgs0.len() {
                assert(ms[j] == msgs0[j]);
            } else {
                assert(ms[j] == suffix[j - msgs0.len()]);
            }
        }
        lemma_iter_starts_none(ms);
        assert forall|j: int| 0 <= j < ms.len() implies !((#[trigger] ms[j]) is Done) by {
            if j < msgs0.len() {
                assert(ms[j] == msgs0[j]);
            } else {
                assert(ms[j] == suffix[j - msgs0.len()]);
            }
        }
    }
}

/// Facts about one transition: well-formedness and the run's inputs are
/// kept; the iteration advances by at most one, announced by exactly one
/// IterationStart; `Done` can only be the last message of a finishing step;
/// and a finishing step closes with `Done` or an `Error`.
pub proof fn lemma_step_facts(r: RunnerV, ev: EventV)
    requires
        spec_wf(r),
        spec_event_fits(r.phase, ev),
    ensures
        ({
            let (r2, ms, a) = spec_step(r, ev);
            &&& spec_wf(r2)
            &&& r2.file_path == r.file_path
            &&& r2.task_prompt == r.task_prompt
            &&& r2.verifiers == r.verifiers
            &&& (r2.iteration == r.iteration || (r2.iteration == r.iteration + 1 && r2.phase
                == Phase::AwaitWorker))
            &&& (r2.iteration == r.iteration ==> spec_iter_starts(ms) == Seq::<int>::empty())
            &&& (r2.iteration == r.iteration + 1 ==> spec_iter_starts(ms) == seq![r2.iteration])
            &&& (forall|i: int|
                0 <= i < ms.len() && (#[trigger] ms[i]) is Done ==> i == ms.len() - 1 && r2.phase
                    == Phase::Finished)
            &&& (r2.phase == Phase::Finished ==> ms.len() > 0 && (ms.last() is Done
                || ms.last() is Error))
        }),
{
    reveal(spec_step);
    let (r2, ms, a) = spec_step(r, ev);
    match (r.phase, ev) {
        (Phase::AwaitWorker, EventV::CliDone(res)) => match res {
            Ok(_) => {
                let msgs0 = seq![MsgV::Log("Worker complete."@), MsgV::FileUpdated];
                if r.verifiers.len() == 0 {
                    let suffix = seq![MsgV::FileUpdated, MsgV::Done];
                    assert(ms == msgs0 + suffix);
                    assert forall|j: int| 0 <= j < ms.len() implies !((#[trigger] ms[j]) is IterationStart) by {
                        if j < 2 {
                            assert(ms[j] == msgs0[j]);
                        } else {
                            assert(ms[j] == suffix[j - 2]);
                        }
                    }
                    lemma_iter_starts_none(ms);
                    assert forall|j: int|
                        0 <= j < ms.len() && (#[trigger] ms[j]) is Done implies j == ms.len() - 1
                        && r2.phase == Phase::Finished by {
                        if j < 2 {
                            assert(ms[j] == msgs0[j]);
                        } else {
                            assert(ms[j] == suffix[j - 2]);
                        }
                    }
                    assert(ms.last() == MsgV::Done);
                } else {
                    let suffix = spec_start_verifier(r, 0);
                    assert(ms == msgs0 + suffix);
                    assert forall|j: int| 0 <= j < ms.len() implies !((#[trigger] ms[j]) is IterationStart) by {
                        if j < 2 {
                            assert(ms[j] == msgs0[j]);
                        } else {
                            assert(ms[j] == suffix[j - 2]);
                        }
                    }
                    lemma_iter_starts_none(ms);
                    assert forall|j: int| 0 <= j < ms.len() implies !((#[trigger] ms[j]) is Done) by {
                        if j < 2 {
                            assert(ms[j] == msgs0[j]);
                        } else {
                            assert(ms[j] == suffix[j - 2]);
                        }
                    }
                }
            },
            Err(e) => {
                assert(ms == seq![MsgV::Error(spec_msg_worker_failed(e))]);
                lemma_iter_starts_none(ms);
                assert(ms.last() is Error);
            },
        },
        (Phase::AwaitVerifierCli, EventV::CliDone(res)) => match res {
            Ok(_) => {
                assert(ms == seq![MsgV::FileUpdated]);
                lemma_iter_starts_none(ms);
            },
            Err(e) => {
                let msgs0 = seq![
                    MsgV::Error(spec_msg_verifier_failed_run(r.verifiers[r.idx].name, e)),
                    MsgV::VerifierStatusUpdate { index: r.idx, status: VerifierStatus::Failed },
                ];
                lemma_advance_facts(RunnerV { all_passed: false, ..r }, msgs0);
            },
        },
        (Phase::AwaitVerifierRead, EventV::ReadDone(res)) => match res {
            Ok(c) => {
                let name = r.verifiers[r.idx].name;
                if spec_find_checked(spec_parse_checkboxes(c), name) {
                    let msgs0 = seq![
                        MsgV::VerifierStatusUpdate {
                            index: r.idx,
                            status: VerifierStatus::Passed,
                        },
                        MsgV::Log(spec_msg_passed(name)),
                    ];
                    lemma_advance_facts(r, msgs0);
                } else {
                    let msgs0 = seq![
                        MsgV::VerifierStatusUpdate {
                            index: r.idx,
                            status: VerifierStatus::Failed,
                        },
                        MsgV::Log(spec_msg_failed(name)),
                    ];
                    lemma_advance_facts(RunnerV { all_passed: false, ..r }, msgs0);
                }
            },
            Err(e) => {
                let msgs0 = seq![
                    MsgV::Error(spec_msg_parse_failed(e)),
                    MsgV::VerifierStatusUpdate { index: r.idx, status: VerifierStatus::Failed },
                    MsgV::Log(spec_msg_failed(r.verifiers[r.idx].name)),
                ];
                lemma_advance_facts(RunnerV { all_passed: false, ..r }, msgs0);
            },
        },
        (Phase::AwaitUncheckRead, EventV::ReadDone(res)) => match res {
            Ok(_) => {
                assert(ms == Seq::<MsgV>::empty());
                lemma_iter_starts_none(ms);
            },
            Err(e) => {
                assert(ms == seq![MsgV::Error(spec_msg_uncheck_failed(e))]);
                lemma_iter_starts_none(ms);
                assert(ms.last() is Error);
            },
        },
        (Phase::AwaitUncheckWrite, EventV::WriteDone(res)) => match res {
            Ok(_) => {
                if r.iteration < MAX_ITERATIONS {
                    assert(ms == seq![MsgV::FileUpdated] + spec_begin_iter(r.iteration + 1));
                    assert(ms[1] == MsgV::IterationStart(r.iteration + 1));
                    assert forall|j: int|
                        0 <= j < ms.len() && j != 1 implies !((#[trigger] ms[j]) is IterationStart) by {
                        if j == 0 {
                            assert(ms[0] == MsgV::FileUpdated);
                        } else {
                            assert(ms[j] == spec_begin_iter(r.iteration + 1)[j - 1]);
                        }
                    }
                    lemma_iter_starts_one(ms, 1, r.iteration + 1);
                    assert forall|j: int| 0 <= j < ms.len() implies !((#[trigger] ms[j]) is Done) by {
                        if j >= 1 {
                            assert(ms[j] == spec_begin_iter(r.iteration + 1)[j - 1]);
                        }
                    }
                } else {
                    assert(ms == seq![MsgV::FileUpdated, MsgV::Error(spec_msg_cap())]);
                    lemma_iter_starts_none(ms);
                    assert(ms.last() is Error);
                }
            },
            Err(e) => {
                assert(ms == seq![MsgV::Error(spec_msg_uncheck_failed(e))]);
                lemma_iter_starts_none(ms);
                assert(ms.last() is Error);
            },
        },
        _ => {
            assert(false);
        },
    }
}

/// A run's state after `k` events only depends on the first `k` events.
pub proof fn lemma_state_at_drop_last(init: RunnerV, evs: Seq<EventV>, k: int)
    requires
        evs.len() > 0,
        0 <= k < evs.len(),
    ensures
        spec_state_at(init, evs.drop_last(), k) == spec_state_at(init, evs, k),
    decreases k,
{
    if k > 0 {
        lemma_state_at_drop_last(init, evs, k - 1);
        assert(evs.drop_last()[k - 1] == evs[k - 1]);
    }
}

/// Validity restricts to prefixes.
pub proof fn lemma_valid_run_drop_last(init: RunnerV, evs: Seq<EventV>)
    requires
        spec_valid_run(init, evs),
        evs.len() > 0,
    ensures
        spec_valid_run(init, evs.drop_last()),
{
    let pre = evs.drop_last();
    assert forall|k: int| 0 <= k < pre.len() implies spec_event_fits(
        spec_state_at(init, pre, k).phase,
        #[trigger] pre[k],
    ) by {
        lemma_state_at_drop_last(init, evs, k);
        assert(pre[k] == evs[k]);
    }
}

/// In a valid run, a finished state is final: no event follows it.
#[verifier::rlimit(100)]
pub proof fn lemma_finished_is_final(init: RunnerV, evs: Seq<EventV>)
    requires
        spec_valid_run(init, evs),
    ensures
        forall|k: int|
            0 <= k < evs.len() ==> spec_state_at(init, evs, k).phase != Phase::Finished,
{
    assert forall|k: int|
        0 <= k < evs.len() implies spec_state_at(init, evs, k).phase != Phase::Finished by {
        assert(spec_event_fits(spec_state_at(init, evs, k).phase, evs[k]));
    }
}

/// Event ordering over a whole run (the run invariant).  Starting fresh:
/// the run's inputs never change; every state is well formed; the announced
/// iteration tags are exactly 1, 2, ..., up to the current iteration, in
/// order; `Done` can only be the very last message, with the run finished;
/// and a finished run closes with `Done` or an `Error`.
#[verifier::rlimit(100)]
pub proof fn lemma_run_invariant(init: RunnerV, evs: Seq<EventV>)
    requires
        spec_fresh(init),
        spec_wf(init),
        spec_valid_run(init, evs),
    ensures
        ({
            let fin = spec_state_at(init, evs, evs.len() as int);
            let e = spec_emitted(init, evs);
            &&& forall|k: int|
                0 <= k <= evs.len() ==> {
                    let st = #[trigger] spec_state_at(init, evs, k);
                    &&& spec_wf(st)
                    &&& st.file_path == init.file_path
                    &&& st.task_prompt == init.task_prompt
                    &&& st.verifiers == init.verifiers
                }
            &&& e.len() > 0
            &&& spec_iter_starts(e) == spec_consecutive(fin.iteration)
            &&& (forall|i: int|
                0 <= i < e.len() && (#[trigger] e[i]) is Done ==> i == e.len() - 1 && fin.phase
                    == Phase::Finished)
            &&& (fin.phase == Phase::Finished ==> (e.last() is Done || e.last() is Error))
        }),
    decreases evs.len(),
{
    let fin = spec_state_at(init, evs, evs.len() as int);
    let e = spec_emitted(init, evs);
    if evs.len() == 0 {
        assert(e == spec_begin_iter(init.iteration));
        assert(e[0] == MsgV::IterationStart(1));
        assert forall|j: int| 0 <= j < e.len() && j != 0 implies !((#[trigger] e[j]) is IterationStart) by {
        }
        lemma_iter_starts_one(e, 0, 1);
        assert(spec_consecutive(1) =~= seq![1int]);
        assert forall|k: int|
            0 <= k <= evs.len() implies {
                let st = #[trigger] spec_state_at(init, evs, k);
                &&& spec_wf(st)
                &&& st.file_path == init.file_path
                &&& st.task_prompt == init.task_prompt
                &&& st.verifiers == init.verifiers
            } by {
            assert(spec_state_at(init, evs, k) == init);
        }
    } else {
        let pre = evs.drop_last();
        lemma_valid_run_drop_last(init, evs);
        lemma_run_invariant(init, pre);
        let e0 = spec_emitted(init, pre);
        let st = spec_state_at(init, evs, evs.len() - 1);
        let ev = evs.last();
        lemma_state_at_drop_last(init, evs, evs.len() - 1);
        assert(spec_state_at(init, pre, evs.len() - 1) == st);
        assert(spec_wf(st));
        assert(spec_event_fits(st.phase, ev));
        lemma_step_facts(st, ev);
        let t = spec_step(st, ev);
        let ms = t.1;
        assert(fin == t.0);
        assert(e == e0 + ms);
        lemma_iter_starts_concat(e0, ms);
        assert(spec_iter_starts(e0) == spec_consecutive(st.iteration));
        if fin.iteration == st.iteration {
            assert(spec_iter_starts(e) =~= spec_consecutive(fin.iteration));
        } else {
            assert(fin.iteration == st.iteration + 1);
            assert(spec_iter_starts(e) =~= spec_consecutive(st.iteration) + seq![
                st.iteration + 1
            ]);
            assert(spec_consecutive(st.iteration) + seq![st.iteration + 1] =~= spec_consecutive(
                fin.iteration,
            ));
        }
        assert forall|k: int|
            0 <= k <= evs.len() implies {
                let stk = #[trigger] spec_state_at(init, evs, k);
                &&& spec_wf(stk)
                &&& stk.file_path == init.file_path
                &&& stk.task_prompt == init.task_prompt
                &&& stk.verifiers == init.verifiers
            } by {
            if k < evs.len() {
                lemma_state_at_drop_last(init, evs, k);
            }
        }
        assert forall|i: int|
            0 <= i < e.len() && (#[trigger] e[i]) is Done implies i == e.len() - 1 && fin.phase
            == Phase::Finished by {
            if i < e0.len() {
                assert(e[i] == e0[i]);
                assert(spec_state_at(init, pre, pre.len() as int) == st);
                assert(st.phase != Phase::Finished);
                assert(false);
            } else {
                assert(e[i] == ms[i - e0.len()]);
            }
        }
        if fin.phase == Phase::Finished {
            assert(ms.len() > 0);
            assert(e.last() == ms.last());
        }
    }
}

/// At-most-one-Done: across any valid run from a fresh state, `Done` is
/// emitted at most once, and only as the very last message of the run.
pub proof fn lemma_at_most_one_done(init: RunnerV, evs: Seq<EventV>)
    requires
        spec_fresh(init),
        spec_wf(init),
        spec_valid_run(init, evs),
    ensures
        ({
            let e = spec_emitted(init, evs);
            &&& forall|i: int, j: int|
                0 <= i < e.len() && 0 <= j < e.len() && (#[trigger] e[i]) is Done && (
                #[trigger] e[j]) is Done ==> i == j
            &&& forall|i: int|
                0 <= i < e.len() && (#[trigger] e[i]) is Done ==> i == e.len() - 1
        }),
{
    lemma_run_invariant(init, evs);
}

/// Worker-fatal termination: when the worker call fails, the step emits
/// only the worker error -- in particular no VerifierStatusUpdate -- and
/// finishes the run, so nothing of that iteration's verifier phase is ever
/// emitted.
pub proof fn lemma_worker_failure_fatal(r: RunnerV, e: Seq<char>)
    requires
        r.phase == Phase::AwaitWorker,
    ensures
        ({
            let (r2, ms, a) = spec_step(r, EventV::CliDone(Err(e)));
            &&& ms == seq![MsgV::Error(spec_msg_worker_failed(e))]
            &&& forall|i: int|
                0 <= i < ms.len() ==> !((#[trigger] ms[i]) is VerifierStatusUpdate)
            &&& r2.phase == Phase::Finished
            &&& a == ActionV::Stop
        }),
{
    reveal(spec_step);
    let (r2, ms, a) = spec_step(r, EventV::CliDone(Err(e)));
    assert forall|i: int| 0 <= i < ms.len() implies !((#[trigger] ms[i]) is VerifierStatusUpdate) by {
        assert(ms[i] == MsgV::Error(spec_msg_worker_failed(e)));
    }
}

/// Verifier-scoped isolation: one verifier failing -- by invocation error,
/// by an unchecked box, or by an unreadable file -- does not keep the next
/// verifier from being attempted.
pub proof fn lemma_verifier_failure_isolated(r: RunnerV, ev: EventV)
    requires
        spec_wf(r),
        r.idx + 1 < r.verifiers.len(),
        ({
            ||| (r.phase == Phase::AwaitVerifierCli && ev matches EventV::CliDone(Err(_)))
            ||| ({
                &&& r.phase == Phase::AwaitVerifierRead
                &&& ev matches EventV::ReadDone(Ok(c)) && !spec_find_checked(
                    spec_parse_checkboxes(c),
                    r.verifiers[r.idx].name,
                )
            })
            ||| (r.phase == Phase::AwaitVerifierRead && ev matches EventV::ReadDone(Err(_)))
        }),
    ensures
        ({
            let (r2, ms, a) = spec_step(r, ev);
            &&& r2.phase == Phase::AwaitVerifierCli
            &&& r2.idx == r.idx + 1
            &&& a == ActionV::RunCli(
                spec_verifier_prompt(
                    r.verifiers[r.idx + 1].name,
                    r.file_path,
                    r.verifiers[r.idx + 1].prompt,
                ),
            )
        }),
{
    reveal(spec_step);
}

/// A run in which every outside action succeeds but no verifier ever
/// passes: the worker and verifier CLI calls return Ok, every file read and
/// write succeeds, and the checked file never shows the current verifier's
/// box checked.
pub open spec fn spec_benign_no_pass(st: RunnerV, ev: EventV) -> bool {
    match st.phase {
        Phase::AwaitWorker => ev matches EventV::CliDone(Ok(_)),
        Phase::AwaitVerifierCli => ev matches EventV::CliDone(Ok(_)),
        Phase::AwaitVerifierRead => ev matches EventV::ReadDone(Ok(c)) && !spec_find_checked(
            spec_parse_checkboxes(c),
            st.verifiers[st.idx].name,
        ),
        Phase::AwaitUncheckRead => ev matches EventV::ReadDone(Ok(_)),
        Phase::AwaitUncheckWrite => ev matches EventV::WriteDone(Ok(_)),
        Phase::Finished => false,
    }
}

/// A benign, never-passing step can only finish the run at the cap.
#[verifier::spinoff_prover]
#[verifier::rlimit(100)]
proof fn lemma_benign_step_finish(st: RunnerV, ev: EventV)
    requires
        spec_wf(st),
        spec_event_fits(st.phase, ev),
        spec_benign_no_pass(st, ev),
        st.verifiers.len() > 0,
        spec_step(st, ev).0.phase == Phase::Finished,
    ensures
        st.phase == Phase::AwaitUncheckWrite,
        st.iteration == MAX_ITERATIONS as int,
        spec_step(st, ev).0.iteration == MAX_ITERATIONS as int,
        spec_step(st, ev).1 == seq![MsgV::FileUpdated, MsgV::Error(spec_msg_cap())],
{
    reveal(spec_step);
    match st.phase {
        Phase::AwaitWorker => {
            assert(spec_step(st, ev).0.phase == Phase::AwaitVerifierCli);
        },
        Phase::AwaitVerifierCli => {
            assert(spec_step(st, ev).0.phase == Phase::AwaitVerifierRead);
        },
        Phase::AwaitVerifierRead => {
            assert(spec_step(st, ev).0.phase == Phase::AwaitVerifierCli || spec_step(
                st,
                ev,
            ).0.phase == Phase::AwaitUncheckRead);
        },
        Phase::AwaitUncheckRead => {
            assert(spec_step(st, ev).0.phase == Phase::AwaitUncheckWrite);
        },
        Phase::AwaitUncheckWrite => {
            if st.iteration < MAX_ITERATIONS {
                assert(spec_step(st, ev).0.phase == Phase::AwaitWorker);
            }
        },
        Phase::Finished => {},
    }
}

/// Iteration-cap termination: a complete run with at least one verifier in
/// which no verifier ever passes announces exactly `MAX_ITERATIONS`
/// iterations, and its last message is the cap error.
#[verifier::spinoff_prover]
#[verifier::rlimit(100)]
pub proof fn lemma_iteration_cap(init: RunnerV, evs: Seq<EventV>)
    requires
        spec_fresh(init),
        spec_wf(init),
        init.verifiers.len() > 0,
        spec_valid_run(init, evs),
        forall|k: int|
            0 <= k < evs.len() ==> spec_benign_no_pass(
                spec_state_at(init, evs, k),
                #[trigger] evs[k],
            ),
        spec_state_at(init, evs, evs.len() as int).phase == Phase::Finished,
    ensures
        spec_iter_starts(spec_emitted(init, evs)) == spec_consecutive(MAX_ITERATIONS as int),
        spec_emitted(init, evs).last() == MsgV::Error(spec_msg_cap()),
{
    lemma_run_invariant(init, evs);
    if evs.len() == 0 {
        assert(spec_state_at(init, evs, 0) == init);
        assert(false);
    }
    let k = evs.len() - 1;
    let st = spec_state_at(init, evs, k);
    let ev = evs[k];
    let fin = spec_state_at(init, evs, evs.len() as int);
    assert(fin == spec_step(st, ev).0);
    assert(spec_benign_no_pass(st, ev));
    assert(spec_event_fits(st.phase, ev));
    assert(spec_wf(st) && st.verifiers == init.verifiers);
    lemma_benign_step_finish(st, ev);
    let ms = spec_step(st, ev).1;
    let pre = evs.drop_last();
    assert(evs.last() == ev);
    assert(spec_emitted(init, evs) == spec_emitted(init, pre) + ms);
    assert(spec_emitted(init, evs).last() == ms.last());
    assert(ms.last() == MsgV::Error(spec_msg_cap()));
}

} // verus!
