use vstd::prelude::*;
use vstd::string::*;
use crate::file_manager::FileManager;
use crate::text::spec_trim;

verus! {

/// A verifier definition: a name and a prompt that tells the external agent
/// how to verify.
#[derive(Clone, Debug)]
pub struct Verifier {
    pub name: String,
    pub prompt: String,
    pub enabled: bool,
}

/// The mathematical view of a verifier.
pub struct VerifierV {
    pub name: Seq<char>,
    pub prompt: Seq<char>,
    pub enabled: bool,
}

impl View for Verifier {
    type V = VerifierV;

    open spec fn view(&self) -> VerifierV {
        VerifierV { name: self.name@, prompt: self.prompt@, enabled: self.enabled }
    }
}

/// Status of each verifier during a run.
#[derive(Clone, Copy, Debug, PartialEq, Eq, Structural)]
pub enum VerifierStatus {
    Pending,
    Running,
    Passed,
    Failed,
}

/// Messages sent from the runner task to the UI.
#[derive(Clone, Debug)]
pub enum RunnerMessage {
    Log(String),
    VerifierStatusUpdate { index: usize, status: VerifierStatus },
    IterationStart(u32),
    FileUpdated,
    Done,
    Error(String),
}

/// The mathematical view of a runner message.
pub enum MsgV {
    Log(Seq<char>),
    VerifierStatusUpdate { index: int, status: VerifierStatus },
    IterationStart(int),
    FileUpdated,
    Done,
    Error(Seq<char>),
}

impl View for RunnerMessage {
    type V = MsgV;

    open spec fn view(&self) -> MsgV {
        match self {
            RunnerMessage::Log(s) => MsgV::Log(s@),
            RunnerMessage::VerifierStatusUpdate { index, status } => MsgV::VerifierStatusUpdate {
                index: *index as int,
                status: *status,
            },
            RunnerMessage::IterationStart(k) => MsgV::IterationStart(*k as int),
            RunnerMessage::FileUpdated => MsgV::FileUpdated,
            RunnerMessage::Done => MsgV::Done,
            RunnerMessage::Error(s) => MsgV::Error(s@),
        }
    }
}

/// The view of a message list.
pub open spec fn view_msgs(v: Seq<RunnerMessage>) -> Seq<MsgV> {
    v.map_values(|m: RunnerMessage| m@)
}

/// The view of a verifier list.
pub open spec fn view_verifiers(v: Seq<Verifier>) -> Seq<VerifierV> {
    v.map_values(|x: Verifier| x@)
}

/// The view of a string list.
pub open spec fn view_strings(v: Seq<String>) -> Seq<Seq<char>> {
    v.map_values(|s: String| s@)
}

/// The view of a verifier status board.
pub open spec fn view_statuses(v: Seq<(String, VerifierStatus)>) -> Seq<(Seq<char>, VerifierStatus)> {
    v.map_values(|p: (String, VerifierStatus)| (p.0@, p.1))
}

/// Which screen the UI is on.
#[derive(Clone, Debug, PartialEq, Eq, Structural)]
pub enum Screen {
    Setup,
    Running,
    Done,
}

/// Which field is focused on the setup screen.
#[derive(Clone, Debug, PartialEq, Eq, Structural)]
pub enum SetupFocus {
    Prompt,
    VerifierName,
    VerifierPrompt,
    VerifierList,
}

/// Which pane scrolls on the running screen.
#[derive(Clone, Debug, PartialEq, Eq, Structural)]
pub enum ScrollFocus {
    Log,
    File,
}

/// The full application state.
pub struct App {
    pub screen: Screen,
    pub prompt_input: String,
    pub verifier_name_input: String,
    pub verifier_prompt_input: String,
    pub verifiers: Vec<Verifier>,
    pub setup_focus: SetupFocus,
    pub selected_verifier: usize,
    pub prompt_history: Vec<String>,
    pub history_index: Option<usize>,
    pub history_draft: String,
    pub verifier_statuses: Vec<(String, VerifierStatus)>,
    pub logs: Vec<String>,
    pub file_contents: String,
    pub iteration: u32,
    pub file_manager: Option<FileManager>,
    pub log_scroll: u16,
    pub file_scroll: u16,
    pub scroll_focus: ScrollFocus,
    pub should_quit: bool,
}

/// The status board a run starts with: one Pending entry per enabled
/// verifier, in order.
pub open spec fn spec_pending_statuses(vs: Seq<VerifierV>) -> Seq<(Seq<char>, VerifierStatus)>
    decreases vs.len(),
{
    if vs.len() == 0 {
        Seq::<(Seq<char>, VerifierStatus)>::empty()
    } else {
        (if vs[0].enabled {
            seq![(vs[0].name, VerifierStatus::Pending)]
        } else {
            Seq::<(Seq<char>, VerifierStatus)>::empty()
        }) + spec_pending_statuses(vs.drop_first())
    }
}

proof fn lemma_pending_statuses_snoc(vs: Seq<VerifierV>, v: VerifierV)
    ensures
        spec_pending_statuses(vs.push(v)) == spec_pending_statuses(vs) + (if v.enabled {
            seq![(v.name, VerifierStatus::Pending)]
        } else {
            Seq::<(Seq<char>, VerifierStatus)>::empty()
        }),
    decreases vs.len(),
{
    let p = vs.push(v);
    let tail = (if v.enabled {
        seq![(v.name, VerifierStatus::Pending)]
    } else {
        Seq::<(Seq<char>, VerifierStatus)>::empty()
    });
    if vs.len() == 0 {
        assert(p[0] == v);
        assert(p.drop_first() =~= vs);
        assert(spec_pending_statuses(vs) == Seq::<(Seq<char>, VerifierStatus)>::empty());
        assert(spec_pending_statuses(p) =~= spec_pending_statuses(vs) + tail);
    } else {
        lemma_pending_statuses_snoc(vs.drop_first(), v);
        assert(p.drop_first() =~= vs.drop_first().push(v));
        assert(p[0] == vs[0]);
        assert(spec_pending_statuses(p) =~= spec_pending_statuses(vs) + tail);
    }
}

impl App {
    pub fn new() -> (r: App)
        ensures
            r.screen == Screen::Setup,
            r.prompt_input@ == Seq::<char>::empty(),
            r.verifier_name_input@ == Seq::<char>::empty(),
            r.verifier_prompt_input@ == Seq::<char>::empty(),
            r.verifiers@ == Seq::<Verifier>::empty(),
            r.setup_focus == SetupFocus::Prompt,
            r.selected_verifier == 0,
            r.prompt_history@ == Seq::<String>::empty(),
            r.history_index is None,
            r.history_draft@ == Seq::<char>::empty(),
            r.verifier_statuses@ == Seq::<(String, VerifierStatus)>::empty(),
            r.logs@ == Seq::<String>::empty(),
            r.file_contents@ == Seq::<char>::empty(),
            r.iteration == 0,
            r.file_manager is None,
            r.log_scroll == 0,
            r.file_scroll == 0,
            r.scroll_focus == ScrollFocus::Log,
            !r.should_quit,
    {
        App {
            screen: Screen::Setup,
            prompt_input: String::new(),
            verifier_name_input: String::new(),
            verifier_prompt_input: String::new(),
            verifiers: Vec::new(),
            setup_focus: SetupFocus::Prompt,
            selected_verifier: 0,
            prompt_history: Vec::new(),
            history_index: None,
            history_draft: String::new(),
            verifier_statuses: Vec::new(),
            logs: Vec::new(),
            file_contents: String::new(),
            iteration: 0,
            file_manager: None,
            log_scroll: 0,
            file_scroll: 0,
            scroll_focus: ScrollFocus::Log,
            should_quit: false,
        }
    }

    /// Add the verifier being edited, if both its trimmed name and trimmed
    /// prompt are non-empty; the inputs are then cleared and focus returns
    /// to the name field.  Otherwise nothing changes.
    pub fn add_verifier(&mut self)
        ensures
            ({
                let name = spec_trim(old(self).verifier_name_input@);
                let prompt = spec_trim(old(self).verifier_prompt_input@);
                if name.len() > 0 && prompt.len() > 0 {
                    &&& view_verifiers(final(self).verifiers@) == view_verifiers(
                        old(self).verifiers@,
                    ).push(VerifierV { name, prompt, enabled: true })
                    &&& final(self).verifier_name_input@ == Seq::<char>::empty()
                    &&& final(self).verifier_prompt_input@ == Seq::<char>::empty()
                    &&& final(self).setup_focus == SetupFocus::VerifierName
                    &&& final(self).screen == old(self).screen
                    &&& final(self).prompt_input == old(self).prompt_input
                    &&& final(self).selected_verifier == old(self).selected_verifier
                    &&& final(self).prompt_history == old(self).prompt_history
                    &&& final(self).verifier_statuses == old(self).verifier_statuses
                    &&& final(self).logs == old(self).logs
                } else {
                    *final(self) == *old(self)
                }
            }),
    {
        let name = crate::text::trim_str(self.verifier_name_input.as_str());
        let prompt = crate::text::trim_str(self.verifier_prompt_input.as_str());
        if !name.as_str().is_empty() && !prompt.as_str().is_empty() {
            let ghost pre = view_verifiers(self.verifiers@);
            let ghost nv = VerifierV { name: name@, prompt: prompt@, enabled: true };
            self.verifiers.push(Verifier { name, prompt, enabled: true });
            self.verifier_name_input = String::new();
            self.verifier_prompt_input = String::new();
            self.setup_focus = SetupFocus::VerifierName;
            proof {
                assert(view_verifiers(self.verifiers@) =~= pre.push(nv));
            }
        }
    }

    /// Remove the selected verifier, if any, and keep the selection in
    /// range.
    pub fn remove_selected_verifier(&mut self)
        requires
            old(self).verifiers@.len() > 0 ==> old(self).selected_verifier < old(
                self
            ).verifiers@.len(),
        ensures
            ({
                if old(self).verifiers@.len() > 0 {
                    &&& final(self).verifiers@ == old(self).verifiers@.remove(
                        old(self).selected_verifier as int,
                    )
                    &&& final(self).selected_verifier == (if old(self).selected_verifier >= final(
                        self
                    ).verifiers@.len() && old(self).selected_verifier > 0 {
                        (old(self).selected_verifier - 1) as usize
                    } else {
                        old(self).selected_verifier
                    })
                    &&& final(self).logs == old(self).logs
                    &&& final(self).screen == old(self).screen
                } else {
                    *final(self) == *old(self)
                }
            }),
    {
        if self.verifiers.len() > 0 {
            self.verifiers.remove(self.selected_verifier);
            if self.selected_verifier >= self.verifiers.len() && self.selected_verifier > 0 {
                self.selected_verifier = self.selected_verifier - 1;
            }
        }
    }

    /// Toggle the enabled flag of the selected verifier, if any.
    pub fn toggle_selected_verifier(&mut self)
        ensures
            ({
                if old(self).selected_verifier < old(self).verifiers@.len() {
                    let i = old(self).selected_verifier as int;
                    let v = old(self).verifiers@[i];
                    &&& final(self).verifiers@ == old(self).verifiers@.update(
                        i,
                        Verifier { enabled: !v.enabled, ..v },
                    )
                    &&& final(self).selected_verifier == old(self).selected_verifier
                    &&& final(self).logs == old(self).logs
                    &&& final(self).screen == old(self).screen
                } else {
                    *final(self) == *old(self)
                }
            }),
    {
        if self.selected_verifier < self.verifiers.len() {
            let i = self.selected_verifier;
            let ghost v = self.verifiers@[i as int];
            let flag = self.verifiers[i].enabled;
            self.verifiers[i].enabled = !flag;
            proof {
                assert(self.verifiers@[i as int] == Verifier { enabled: !v.enabled, ..v });
            }
        }
    }

    /// Whether a run can start: the trimmed task prompt is non-empty and at
    /// least one verifier is enabled.
    pub fn can_start(&self) -> (r: bool)
        ensures
            r == (spec_trim(self.prompt_input@).len() > 0 && exists|i: int|
                0 <= i < self.verifiers@.len() && (#[trigger] self.verifiers@[i]).enabled),
    {
        let trimmed = crate::text::trim_str(self.prompt_input.as_str());
        if trimmed.as_str().is_empty() {
            return false;
        }
        let mut i: usize = 0;
        while i < self.verifiers.len()
            invariant
                i <= self.verifiers@.len(),
                spec_trim(self.prompt_input@).len() > 0,
                forall|j: int| 0 <= j < i ==> !(#[trigger] self.verifiers@[j]).enabled,
            decreases self.verifiers@.len() - i,
        {
            if self.verifiers[i].enabled {
                proof {
                    assert((self.verifiers@[i as int]).enabled);
                    assert(exists|j: int|
                        0 <= j < self.verifiers@.len() && (#[trigger] self.verifiers@[j]).enabled);
                }
                return true;
            }
            i += 1;
        }
        false
    }

    /// Enter the running screen: remember the file handle and set up one
    /// Pending status entry per enabled verifier, in order.
    pub fn start_running(&mut self, file_manager: FileManager)
        ensures
            final(self).screen == Screen::Running,
            final(self).file_manager == Some(file_manager),
            view_statuses(final(self).verifier_statuses@) == spec_pending_statuses(
                view_verifiers(old(self).verifiers@),
            ),
            final(self).verifiers == old(self).verifiers,
            final(self).logs == old(self).logs,
            final(self).prompt_input == old(self).prompt_input,
            final(self).iteration == old(self).iteration,
    {
        self.screen = Screen::Running;
        self.file_manager = Some(file_manager);
        let ghost vs = view_verifiers(self.verifiers@);
        let mut statuses: Vec<(String, VerifierStatus)> = Vec::new();
        let mut i: usize = 0;
        proof {
            assert(vs.take(0) =~= Seq::<VerifierV>::empty());
            assert(view_statuses(statuses@) =~= spec_pending_statuses(vs.take(0)));
        }
        while i < self.verifiers.len()
            invariant
                i <= self.verifiers@.len(),
                vs == view_verifiers(self.verifiers@),
                view_statuses(statuses@) == spec_pending_statuses(vs.take(i as int)),
            decreases self.verifiers@.len() - i,
        {
            proof {
                assert(vs[i as int] == self.verifiers@[i as int]@);
                lemma_pending_statuses_snoc(vs.take(i as int), vs[i as int]);
                assert(vs.take(i + 1) =~= vs.take(i as int).push(vs[i as int]));
            }
            if self.verifiers[i].enabled {
                statuses.push((self.verifiers[i].name.clone(), VerifierStatus::Pending));
                proof {
                    assert(view_statuses(statuses@) =~= spec_pending_statuses(vs.take(i + 1)));
                }
            } else {
                proof {
                    assert(spec_pending_statuses(vs.take(i + 1)) =~= spec_pending_statuses(
                        vs.take(i as int),
                    ));
                }
            }
            i += 1;
        }
        self.verifier_statuses = statuses;
        proof {
            assert(vs.take(self.verifiers@.len() as int) =~= vs);
        }
    }

    /// Back to the setup screen for an edited re-run: the task prompt and
    /// the verifier list are kept, everything about the previous run is
    /// cleared.
    pub fn edit_and_rerun(&mut self)
        ensures
            final(self).screen == Screen::Setup,
            final(self).setup_focus == SetupFocus::Prompt,
            final(self).verifier_name_input@ == Seq::<char>::empty(),
            final(self).verifier_prompt_input@ == Seq::<char>::empty(),
            final(self).history_index is None,
            final(self).history_draft@ == Seq::<char>::empty(),
            final(self).verifier_statuses@ == Seq::<(String, VerifierStatus)>::empty(),
            final(self).logs@ == Seq::<String>::empty(),
            final(self).file_contents@ == Seq::<char>::empty(),
            final(self).iteration == 0,
            final(self).file_manager is None,
            final(self).log_scroll == 0,
            final(self).file_scroll == 0,
            final(self).scroll_focus == ScrollFocus::Log,
            final(self).prompt_input == old(self).prompt_input,
            final(self).verifiers == old(self).verifiers,
            final(self).prompt_history == old(self).prompt_history,
            final(self).selected_verifier == old(self).selected_verifier,
            final(self).should_quit == old(self).should_quit,
    {
        self.screen = Screen::Setup;
        self.setup_focus = SetupFocus::Prompt;
        self.verifier_name_input = String::new();
        self.verifier_prompt_input = String::new();
        self.history_index = None;
        self.history_draft = String::new();
        self.verifier_statuses = Vec::new();
        self.logs = Vec::new();
        self.file_contents = String::new();
        self.iteration = 0;
        self.file_manager = None;
        self.log_scroll = 0;
        self.file_scroll = 0;
        self.scroll_focus = ScrollFocus::Log;
    }

    /// Back to a blank setup screen for a fresh run: like `edit_and_rerun`,
    /// and the task prompt is cleared too.
    pub fn reset_for_new_run(&mut self)
        ensures
            final(self).screen == Screen::Setup,
            final(self).prompt_input@ == Seq::<char>::empty(),
            final(self).setup_focus == SetupFocus::Prompt,
            final(self).verifier_name_input@ == Seq::<char>::empty(),
            final(self).verifier_prompt_input@ == Seq::<char>::empty(),
            final(self).history_index is None,
            final(self).history_draft@ == Seq::<char>::empty(),
            final(self).verifier_statuses@ == Seq::<(String, VerifierStatus)>::empty(),
            final(self).logs@ == Seq::<String>::empty(),
            final(self).file_contents@ == Seq::<char>::empty(),
            final(self).iteration == 0,
            final(self).file_manager is None,
            final(self).log_scroll == 0,
            final(self).file_scroll == 0,
            final(self).scroll_focus == ScrollFocus::Log,
            final(self).verifiers == old(self).verifiers,
            final(self).prompt_history == old(self).prompt_history,
            final(self).selected_verifier == old(self).selected_verifier,
            final(self).should_quit == old(self).should_quit,
    {
        self.screen = Screen::Setup;
        self.prompt_input = String::new();
        self.verifier_name_input = String::new();
        self.verifier_prompt_input = String::new();
        self.setup_focus = SetupFocus::Prompt;
        self.history_index = None;
        self.history_draft = String::new();
        self.verifier_statuses = Vec::new();
        self.logs = Vec::new();
        self.file_contents = String::new();
        self.iteration = 0;
        self.file_manager = None;
        self.log_scroll = 0;
        self.file_scroll = 0;
        self.scroll_focus = ScrollFocus::Log;
    }

    /// Apply one runner message to the UI state.  `file_read` carries the
    /// freshly read scratch-file contents for a `FileUpdated` message (None
    /// when there is no file or the read failed); it is ignored otherwise.
    pub fn handle_runner_message(&mut self, msg: RunnerMessage, file_read: Option<String>)
        ensures
            final(self).prompt_input == old(self).prompt_input,
            final(self).verifier_name_input == old(self).verifier_name_input,
            final(self).verifier_prompt_input == old(self).verifier_prompt_input,
            final(self).verifiers == old(self).verifiers,
            final(self).setup_focus == old(self).setup_focus,
            final(self).selected_verifier == old(self).selected_verifier,
            final(self).prompt_history == old(self).prompt_history,
            final(self).history_index == old(self).history_index,
            final(self).history_draft == old(self).history_draft,
            final(self).file_manager == old(self).file_manager,
            final(self).file_scroll == old(self).file_scroll,
            final(self).scroll_focus == old(self).scroll_focus,
            final(self).should_quit == old(self).should_quit,
            (msg matches RunnerMessage::Log(text) ==> {
                &&& final(self).logs@ == old(self).logs@.push(text)
                &&& final(self).log_scroll == spec_log_scroll_after(
                    old(self).logs@.len() as int + 1,
                    old(self).log_scroll,
                )
                &&& final(self).screen == old(self).screen
                &&& final(self).iteration == old(self).iteration
                &&& final(self).verifier_statuses == old(self).verifier_statuses
                &&& final(self).file_contents == old(self).file_contents
            }),
            (msg matches RunnerMessage::VerifierStatusUpdate { index, status } ==> {
                &&& (index < old(self).verifier_statuses@.len() ==> final(self).verifier_statuses@ == old(self).verifier_statuses@.update(
                    index as int,
                    (old(self).verifier_statuses@[index as int].0, status),
                ))
                &&& (index >= old(self).verifier_statuses@.len() ==> final(self).verifier_statuses == old(self).verifier_statuses)
                &&& final(self).screen == old(self).screen
                &&& final(self).iteration == old(self).iteration
                &&& final(self).logs == old(self).logs
                &&& final(self).log_scroll == old(self).log_scroll
                &&& final(self).file_contents == old(self).file_contents
            }),
            (msg matches RunnerMessage::IterationStart(n) ==> {
                &&& final(self).iteration == n
                &&& final(self).verifier_statuses@.len() == old(self).verifier_statuses@.len()
                &&& forall|i: int|
                    0 <= i < old(self).verifier_statuses@.len() ==> final(self).verifier_statuses@[i] == (
                        old(self).verifier_statuses@[i].0,
                        VerifierStatus::Pending,
                    )
                &&& final(self).screen == old(self).screen
                &&& final(self).logs == old(self).logs
                &&& final(self).log_scroll == old(self).log_scroll
                &&& final(self).file_contents == old(self).file_contents
            }),
            (msg matches RunnerMessage::FileUpdated ==> {
                &&& (file_read matches Some(c) ==> final(self).file_contents == c)
                &&& (file_read is None ==> final(self).file_contents == old(self).file_contents)
                &&& final(self).screen == old(self).screen
                &&& final(self).iteration == old(self).iteration
                &&& final(self).logs == old(self).logs
                &&& final(self).log_scroll == old(self).log_scroll
                &&& final(self).verifier_statuses == old(self).verifier_statuses
            }),
            (msg matches RunnerMessage::Done ==> {
                &&& final(self).screen == Screen::Done
                &&& view_strings(final(self).logs@) == view_strings(old(self).logs@).push(
                    "All verifiers passed!"@,
                )
                &&& final(self).iteration == old(self).iteration
                &&& final(self).log_scroll == old(self).log_scroll
                &&& final(self).verifier_statuses == old(self).verifier_statuses
                &&& final(self).file_contents == old(self).file_contents
            }),
            (msg matches RunnerMessage::Error(e) ==> {
                &&& view_strings(final(self).logs@) == view_strings(old(self).logs@).push(
                    "ERROR: "@ + e@,
                )
                &&& final(self).screen == old(self).screen
                &&& final(self).iteration == old(self).iteration
                &&& final(self).log_scroll == old(self).log_scroll
                &&& final(self).verifier_statuses == old(self).verifier_statuses
                &&& final(self).file_contents == old(self).file_contents
            }),
    {
        match msg {
            RunnerMessage::Log(text) => {
                self.logs.push(text);
                let total: u16 = (self.logs.len() % 0x10000) as u16;
                if total > 10 {
                    self.log_scroll = total - 10;
                }
            },
            RunnerMessage::VerifierStatusUpdate { index, status } => {
                if index < self.verifier_statuses.len() {
                    self.verifier_statuses[index].1 = status;
                    proof {
                        assert(self.verifier_statuses@ =~= old(self).verifier_statuses@.update(
                            index as int,
                            (old(self).verifier_statuses@[index as int].0, status),
                        ));
                    }
                }
            },
            RunnerMessage::IterationStart(n) => {
                self.iteration = n;
                let mut i: usize = 0;
                while i < self.verifier_statuses.len()
                    invariant
                        i <= self.verifier_statuses@.len(),
                        self.verifier_statuses@.len() == old(self).verifier_statuses@.len(),
                        forall|j: int|
                            0 <= j < i ==> self.verifier_statuses@[j] == (
                                old(self).verifier_statuses@[j].0,
                                VerifierStatus::Pending,
                            ),
                        forall|j: int|
                            i <= j < self.verifier_statuses@.len()
                                ==> self.verifier_statuses@[j] == old(self).verifier_statuses@[j],
                        self.iteration == n,
                        self.screen == old(self).screen,
                        self.logs == old(self).logs,
                        self.log_scroll == old(self).log_scroll,
                        self.file_contents == old(self).file_contents,
                        self.prompt_input == old(self).prompt_input,
                        self.verifier_name_input == old(self).verifier_name_input,
                        self.verifier_prompt_input == old(self).verifier_prompt_input,
                        self.verifiers == old(self).verifiers,
                        self.setup_focus == old(self).setup_focus,
                        self.selected_verifier == old(self).selected_verifier,
                        self.prompt_history == old(self).prompt_history,
                        self.history_index == old(self).history_index,
                        self.history_draft == old(self).history_draft,
                        self.file_manager == old(self).file_manager,
                        self.file_scroll == old(self).file_scroll,
                        self.scroll_focus == old(self).scroll_focus,
                        self.should_quit == old(self).should_quit,
                    decreases self.verifier_statuses@.len() - i,
                {
                    self.verifier_statuses[i].1 = VerifierStatus::Pending;
                    i += 1;
                }
            },
            RunnerMessage::FileUpdated => {
                match file_read {
                    Some(c) => {
                        self.file_contents = c;
                    },
                    None => {},
                }
            },
            RunnerMessage::Done => {
                self.screen = Screen::Done;
                self.logs.push(String::from_str("All verifiers passed!"));
                proof {
                    assert(view_strings(self.logs@) =~= view_strings(old(self).logs@).push(
                        "All verifiers passed!"@,
                    ));
                }
            },
            RunnerMessage::Error(e) => {
                let mut s = String::from_str("ERROR: ");
                s.append(e.as_str());
                self.logs.push(s);
                proof {
                    assert(view_strings(self.logs@) =~= view_strings(old(self).logs@).push(
                        "ERROR: "@ + e@,
                    ));
                }
            },
        }
    }
}

/// How the log pane's scroll position follows a newly pushed log line: with
/// `n` lines (reduced the way a 16-bit counter reduces them), scroll so the
/// last 10 are visible once there are more than 10.
pub open spec fn spec_log_scroll_after(n: int, old_scroll: u16) -> u16 {
    let t = n % 0x10000;
    if t > 10 {
        (t - 10) as u16
    } else {
        old_scroll
    }
}

/// The cap on remembered prompts.
pub const MAX_PROMPT_HISTORY: usize = 50;

/// `h` without the entries equal to `t`.
pub open spec fn spec_retain_ne(h: Seq<Seq<char>>, t: Seq<char>) -> Seq<Seq<char>>
    decreases h.len(),
{
    if h.len() == 0 {
        Seq::<Seq<char>>::empty()
    } else {
        (if h[0] == t {
            Seq::<Seq<char>>::empty()
        } else {
            seq![h[0]]
        }) + spec_retain_ne(h.drop_first(), t)
    }
}

proof fn lemma_retain_ne_snoc(h: Seq<Seq<char>>, x: Seq<char>, t: Seq<char>)
    ensures
        spec_retain_ne(h.push(x), t) == spec_retain_ne(h, t) + (if x == t {
            Seq::<Seq<char>>::empty()
        } else {
            seq![x]
        }),
    decreases h.len(),
{
    let p = h.push(x);
    let tail = (if x == t {
        Seq::<Seq<char>>::empty()
    } else {
        seq![x]
    });
    if h.len() == 0 {
        assert(p[0] == x);
        assert(p.drop_first() =~= h);
        assert(spec_retain_ne(h, t) == Seq::<Seq<char>>::empty());
        assert(spec_retain_ne(p, t) =~= spec_retain_ne(h, t) + tail);
    } else {
        lemma_retain_ne_snoc(h.drop_first(), x, t);
        assert(p.drop_first() =~= h.drop_first().push(x));
        assert(p[0] == h[0]);
        assert(spec_retain_ne(p, t) =~= spec_retain_ne(h, t) + tail);
    }
}

/// What adding a prompt does to the history: an empty trimmed prompt is
/// ignored; otherwise duplicates of it are dropped, it is appended at the
/// end, and the oldest entries go once the cap is exceeded.
pub open spec fn spec_history_add(h: Seq<Seq<char>>, p: Seq<char>) -> Seq<Seq<char>> {
    let t = spec_trim(p);
    if t.len() == 0 {
        h
    } else {
        let kept = spec_retain_ne(h, t).push(t);
        if kept.len() > MAX_PROMPT_HISTORY {
            kept.skip(kept.len() - MAX_PROMPT_HISTORY)
        } else {
            kept
        }
    }
}

/// Add a prompt to the history, deduplicating and capping its length.
pub fn add_to_prompt_history(history: &mut Vec<String>, prompt: &str)
    ensures
        view_strings(final(history)@) == spec_history_add(
            view_strings(old(history)@),
            prompt@,
        ),
{
    let ghost h0 = view_strings(history@);
    let trimmed = crate::text::trim_str(prompt);
    if trimmed.as_str().is_empty() {
        return ;
    }
    let mut kept: Vec<String> = Vec::new();
    let mut i: usize = 0;
    proof {
        assert(h0.take(0) =~= Seq::<Seq<char>>::empty());
        assert(view_strings(kept@) =~= spec_retain_ne(h0.take(0), trimmed@));
    }
    while i < history.len()
        invariant
            i <= history@.len(),
            h0 == view_strings(history@),
            trimmed@ == spec_trim(prompt@),
            trimmed@.len() > 0,
            view_strings(kept@) == spec_retain_ne(h0.take(i as int), trimmed@),
        decreases history@.len() - i,
    {
        proof {
            assert(h0[i as int] == history@[i as int]@);
            lemma_retain_ne_snoc(h0.take(i as int), h0[i as int], trimmed@);
            assert(h0.take(i + 1) =~= h0.take(i as int).push(h0[i as int]));
        }
        if history[i] != trimmed {
            kept.push(history[i].clone());
            proof {
                assert(view_strings(kept@) =~= spec_retain_ne(h0.take(i + 1), trimmed@));
            }
        } else {
            proof {
                assert(spec_retain_ne(h0.take(i + 1), trimmed@) =~= spec_retain_ne(
                    h0.take(i as int),
                    trimmed@,
                ));
            }
        }
        i += 1;
    }
    proof {
        assert(h0.take(history@.len() as int) =~= h0);
    }
    kept.push(trimmed);
    let ghost full = view_strings(kept@);
    proof {
        assert(full =~= spec_retain_ne(h0, spec_trim(prompt@)).push(spec_trim(prompt@)));
    }
    if kept.len() > MAX_PROMPT_HISTORY {
        let excess = kept.len() - MAX_PROMPT_HISTORY;
        let mut c: usize = 0;
        proof {
            assert(full.skip(0) =~= full);
        }
        while c < excess
            invariant
                c <= excess,
                excess + MAX_PROMPT_HISTORY == full.len(),
                kept@.len() == full.len() - c,
                view_strings(kept@) == full.skip(c as int),
            decreases excess - c,
        {
            kept.remove(0);
            proof {
                assert(view_strings(kept@) =~= full.skip(c as int).drop_first());
                assert(full.skip(c as int).drop_first() =~= full.skip(c + 1));
            }
            c += 1;
        }
    }
    *history = kept;
}

} // verus!
