use vstd::prelude::*;
use crate::error::{EpistemError, ErrorView};
use crate::learn::{acquired_root_of, installed_root_of, LearnOutcome};
use crate::manifest::models::CapabilityManifest;
use crate::manifest::validation::ManifestValidationReport;
use crate::provider::{ProviderRef, ProviderRefView};
use crate::reasoning::{environment_satisfied, requirement_command_of, CandidateProvider};
use crate::registry::index::RegistryIndex;
use crate::text::seq_has;

verus! {

/// Where a capability being learned is in its course.
#[derive(Debug, Clone, Copy, PartialEq, Eq, Structural)]
pub enum Stage {
    /// Asked whether the workspace already has it.
    CheckingWorkspace,
    /// Asked for the directory providers are fetched to.
    Preparing,
    /// Asked to fetch the current candidate provider.
    Fetching,
    /// Asked to validate the fetched provider.
    Validating,
    /// Choosing among the providers that were fetched and found valid.
    Selecting,
    /// Asked which commands of the current record the machine has.
    Probing,
    /// Learning its dependencies, one after the other.
    Dependencies,
    /// Asked to start, verify and shut down the selected provider.
    Running,
    /// Asked to install the selected provider.
    Installing,
    /// Asked to record the capability in the workspace.
    Recording,
}

/// A capability being learned.
pub struct Frame {
    capability: String,
    stage: Stage,
    candidates: Vec<ProviderRef>,
    next_candidate: usize,
    fetched_root: String,
    records: Vec<CandidateProvider>,
    next_record: usize,
    selected: Option<CandidateProvider>,
    next_dependency: usize,
}

/// What the outside world reports back after an action.
#[derive(Debug)]
pub enum LearnEvent {
    /// Whether the workspace already has the capability.
    WorkspaceHas(bool),
    /// The action was carried out.
    Done,
    /// The provider was fetched into this directory.
    Fetched(String),
    /// The report of validating the fetched provider.
    Validated(ManifestValidationReport),
    /// The commands, among those asked about, that the machine has.
    Available(Vec<String>),
    /// The action failed with this error.
    Failed(EpistemError),
}

/// What the outside world is asked to do next.
#[derive(Debug)]
pub enum LearnAction {
    /// Tell whether the workspace's manifest lists the capability.
    CheckWorkspace { capability: String },
    /// Create the directory providers are fetched to.
    PrepareAcquisition { directory: String },
    /// Fetch the provider into the directory.
    Fetch { reference: ProviderRef, destination: String },
    /// Validate the provider fetched into this directory.
    Validate { root: String },
    /// Tell which of these commands the machine has.
    ProbeCommands { commands: Vec<String> },
    /// Start, verify and shut down the selected provider (`LearnSession::selected`).
    Run,
    /// Copy the provider into the workspace, replacing what was there.
    Install { source: String, destination: String },
    /// Record the capability in the workspace's manifest.
    Record { capability: String },
    /// Learning succeeded.
    Finish(LearnOutcome),
    /// Learning failed.
    Fail(EpistemError),
}

/// The course of learning a capability and, first, its dependencies: a machine that is
/// told what happened and says what to do next.
pub struct LearnSession {
    workspace_root: String,
    registry: RegistryIndex,
    visited: Vec<String>,
    frames: Vec<Frame>,
}

/// A candidate seen through its texts.
pub struct CandidateView {
    pub reference: ProviderRefView,
    pub root: Seq<char>,
    pub manifest: CapabilityManifest,
}

/// A frame seen through its texts.
pub struct FrameView {
    pub capability: Seq<char>,
    pub stage: Stage,
    pub candidates: Seq<ProviderRefView>,
    pub next_candidate: nat,
    pub fetched_root: Seq<char>,
    pub records: Seq<CandidateView>,
    pub next_record: nat,
    pub selected: Option<CandidateView>,
    pub next_dependency: nat,
}

/// A session seen through its texts.
pub struct SessionView {
    pub workspace: Seq<char>,
    pub providers: Map<Seq<char>, Seq<ProviderRefView>>,
    pub visited: Seq<Seq<char>>,
    pub frames: Seq<FrameView>,
}

/// An event seen through its texts.
pub enum EventView {
    WorkspaceHas(bool),
    Done,
    Fetched(Seq<char>),
    Validated(Option<CapabilityManifest>, bool),
    Available(Seq<Seq<char>>),
    Failed(ErrorView),
}

/// An action seen through its texts.
pub enum ActionView {
    CheckWorkspace(Seq<char>),
    PrepareAcquisition(Seq<char>),
    Fetch(ProviderRefView, Seq<char>),
    Validate(Seq<char>),
    ProbeCommands(Seq<Seq<char>>),
    Run,
    Install(Seq<char>, Seq<char>),
    Record(Seq<char>),
    Finish(Seq<char>, Seq<char>),
    Fail(ErrorView),
}

impl View for CandidateProvider {
    type V = CandidateView;

    open spec fn view(&self) -> CandidateView {
        CandidateView { reference: self.reference@, root: self.root@, manifest: self.manifest }
    }
}

impl View for Frame {
    type V = FrameView;

    closed spec fn view(&self) -> FrameView {
        FrameView {
            capability: self.capability@,
            stage: self.stage,
            candidates: self.candidates.deep_view(),
            next_candidate: self.next_candidate as nat,
            fetched_root: self.fetched_root@,
            records: self.records@.map_values(|c: CandidateProvider| c@),
            next_record: self.next_record as nat,
            selected: match self.selected {
                Some(c) => Some(c@),
                None => None,
            },
            next_dependency: self.next_dependency as nat,
        }
    }
}

impl View for LearnEvent {
    type V = EventView;

    open spec fn view(&self) -> EventView {
        match self {
            LearnEvent::WorkspaceHas(b) => EventView::WorkspaceHas(*b),
            LearnEvent::Done => EventView::Done,
            LearnEvent::Fetched(r) => EventView::Fetched(r@),
            LearnEvent::Validated(report) => EventView::Validated(report.manifest, report.valid),
            LearnEvent::Available(v) => EventView::Available(v.deep_view()),
            LearnEvent::Failed(e) => EventView::Failed(e@),
        }
    }
}

impl View for LearnAction {
    type V = ActionView;

    open spec fn view(&self) -> ActionView {
        match self {
            LearnAction::CheckWorkspace { capability } => ActionView::CheckWorkspace(capability@),
            LearnAction::PrepareAcquisition { directory } => ActionView::PrepareAcquisition(
                directory@,
            ),
            LearnAction::Fetch { reference, destination } => ActionView::Fetch(
                reference@,
                destination@,
            ),
            LearnAction::Validate { root } => ActionView::Validate(root@),
            LearnAction::ProbeCommands { commands } => ActionView::ProbeCommands(
                commands.deep_view(),
            ),
            LearnAction::Run => ActionView::Run,
            LearnAction::Install { source, destination } => ActionView::Install(
                source@,
                destination@,
            ),
            LearnAction::Record { capability } => ActionView::Record(capability@),
            LearnAction::Finish(o) => ActionView::Finish(o.capability@, o.provider_root@),
            LearnAction::Fail(e) => ActionView::Fail(e@),
        }
    }
}

/// A frame that has just begun: the workspace is to be asked about its capability.
pub open spec fn fresh_frame(capability: Seq<char>) -> FrameView {
    FrameView {
        capability,
        stage: Stage::CheckingWorkspace,
        candidates: Seq::empty(),
        next_candidate: 0,
        fetched_root: Seq::empty(),
        records: Seq::empty(),
        next_record: 0,
        selected: None,
        next_dependency: 0,
    }
}

/// The session with its top frame replaced.
pub open spec fn with_top(s: SessionView, f: FrameView) -> SessionView {
    SessionView { frames: s.frames.drop_last().push(f), ..s }
}

/// The session once learning has stopped.
pub open spec fn stopped(s: SessionView) -> SessionView {
    SessionView { frames: Seq::empty(), ..s }
}

/// The commands a manifest's requirements name.
pub open spec fn commands_of(m: CapabilityManifest) -> Seq<Seq<char>> {
    match m.install {
        Some(i) => i.requires@.map_values(|r: String| requirement_command_of(r@)),
        None => Seq::empty(),
    }
}

/// Whether choosing a record needs to know which commands the machine has.
pub open spec fn needs_probe(m: CapabilityManifest) -> bool {
    m.install matches Some(i) && i.requires@.len() > 0
}

/// The providers the registry lists for a capability (none for an unknown one).
pub open spec fn listed_providers(s: SessionView, capability: Seq<char>) -> Seq<ProviderRefView> {
    if s.providers.dom().contains(capability) {
        s.providers[capability]
    } else {
        Seq::empty()
    }
}

/// Begins learning a capability: a capability met a second time is a cycle; otherwise it is
/// marked as met and the workspace is asked about it.
pub open spec fn enter(s: SessionView, capability: Seq<char>) -> (SessionView, ActionView) {
    if seq_has(s.visited, capability) {
        (
            stopped(s),
            ActionView::Fail(
                ErrorView::Registry("cyclic capability dependency detected at "@ + capability),
            ),
        )
    } else {
        (
            SessionView {
                visited: s.visited.push(capability),
                frames: s.frames.push(fresh_frame(capability)),
                ..s
            },
            ActionView::CheckWorkspace(capability),
        )
    }
}

/// Goes on with the dependencies of the top frame: learns the next one, or, when all have
/// been learned, runs the selected provider.
pub open spec fn advance_dependencies(s: SessionView) -> (SessionView, ActionView) {
    let f = s.frames.last();
    let deps = f.selected->0.manifest.dependencies.deep_view();
    if f.next_dependency < deps.len() {
        enter(
            with_top(s, FrameView { next_dependency: f.next_dependency + 1, ..f }),
            deps[f.next_dependency as int],
        )
    } else {
        (with_top(s, FrameView { stage: Stage::Running, ..f }), ActionView::Run)
    }
}

/// Selects the record at `j` of the top frame and goes on with its dependencies.
pub open spec fn select(s: SessionView, j: nat) -> (SessionView, ActionView) {
    let f = s.frames.last();
    advance_dependencies(
        with_top(
            s,
            FrameView {
                stage: Stage::Dependencies,
                selected: Some(f.records[j as int]),
                records: f.records.remove(j as int),
                next_dependency: 0,
                ..f
            },
        ),
    )
}

/// Looks for a provider among the records of the top frame from position `from` on: the
/// first that offers the capability is selected when it requires nothing, and otherwise the
/// machine is asked about its commands; when none is left, learning fails.
pub open spec fn advance_selection(s: SessionView, from: nat) -> (SessionView, ActionView)
    decreases s.frames.last().records.len() - from,
{
    let f = s.frames.last();
    if from >= f.records.len() {
        (
            stopped(s),
            ActionView::Fail(
                ErrorView::Registry("no compatible provider found for capability "@ + f.capability),
            ),
        )
    } else if !seq_has(f.records[from as int].manifest.capabilities.deep_view(), f.capability) {
        advance_selection(s, from + 1)
    } else if needs_probe(f.records[from as int].manifest) {
        (
            with_top(s, FrameView { stage: Stage::Probing, next_record: from, ..f }),
            ActionView::ProbeCommands(commands_of(f.records[from as int].manifest)),
        )
    } else {
        select(s, from)
    }
}

/// Finishes the top frame: the first capability's outcome ends learning; a dependency's
/// lets its dependent go on.
pub open spec fn complete(s: SessionView, root: Seq<char>) -> (SessionView, ActionView) {
    let f = s.frames.last();
    let rest = SessionView { frames: s.frames.drop_last(), ..s };
    if rest.frames.len() == 0 {
        (rest, ActionView::Finish(f.capability, root))
    } else {
        advance_dependencies(rest)
    }
}

/// What the session does with an event: its next state and the action it asks for.
pub open spec fn next(s: SessionView, e: EventView) -> (SessionView, ActionView) {
    let f = s.frames.last();
    let installed = installed_root_of(s.workspace, f.capability);
    match e {
        EventView::Failed(err) => (stopped(s), ActionView::Fail(err)),
        EventView::WorkspaceHas(true) => complete(s, installed),
        EventView::WorkspaceHas(false) => {
            let providers = listed_providers(s, f.capability);
            if providers.len() == 0 {
                (
                    stopped(s),
                    ActionView::Fail(
                        ErrorView::Registry("no providers registered for "@ + f.capability),
                    ),
                )
            } else {
                (
                    with_top(s, FrameView { stage: Stage::Preparing, candidates: providers, ..f }),
                    ActionView::PrepareAcquisition(acquired_root_of(s.workspace)),
                )
            }
        },
        EventView::Fetched(root) => (
            with_top(s, FrameView { stage: Stage::Validating, fetched_root: root, ..f }),
            ActionView::Validate(root),
        ),
        EventView::Validated(manifest, valid) => {
            let records = if manifest is Some && valid {
                f.records.push(
                    CandidateView {
                        reference: f.candidates[f.next_candidate as int],
                        root: f.fetched_root,
                        manifest: manifest->0,
                    },
                )
            } else {
                f.records
            };
            let k = f.next_candidate + 1;
            if k < f.candidates.len() {
                (
                    with_top(
                        s,
                        FrameView { stage: Stage::Fetching, records, next_candidate: k, ..f },
                    ),
                    ActionView::Fetch(f.candidates[k as int], acquired_root_of(s.workspace)),
                )
            } else {
                advance_selection(
                    with_top(s, FrameView { stage: Stage::Selecting, records, next_candidate: k, ..f }),
                    0,
                )
            }
        },
        EventView::Available(commands) => if environment_satisfied(
            f.records[f.next_record as int].manifest,
            commands,
        ) {
            select(s, f.next_record)
        } else {
            advance_selection(s, f.next_record + 1)
        },
        EventView::Done => match f.stage {
            Stage::Preparing => (
                with_top(s, FrameView { stage: Stage::Fetching, next_candidate: 0, ..f }),
                ActionView::Fetch(f.candidates[0], acquired_root_of(s.workspace)),
            ),
            Stage::Running => (
                with_top(s, FrameView { stage: Stage::Installing, ..f }),
                ActionView::Install(f.selected->0.root, installed),
            ),
            Stage::Installing => (
                with_top(s, FrameView { stage: Stage::Recording, ..f }),
                ActionView::Record(f.capability),
            ),
            _ => complete(s, installed),
        },
    }
}

/// Whether a frame at this stage has chosen its provider.
pub open spec fn has_selected(stage: Stage) -> bool {
    stage == Stage::Dependencies || stage == Stage::Running || stage == Stage::Installing
        || stage == Stage::Recording
}

/// The dependencies of the provider a frame has chosen.
pub open spec fn deps_of(f: FrameView) -> Seq<Seq<char>> {
    f.selected->0.manifest.dependencies.deep_view()
}

/// Whether a frame is consistent with its stage.
pub open spec fn frame_ok(f: FrameView) -> bool {
    &&& (f.stage == Stage::Fetching || f.stage == Stage::Validating) ==> f.next_candidate
        < f.candidates.len()
    &&& f.stage == Stage::Preparing ==> f.candidates.len() > 0
    &&& f.stage == Stage::Probing ==> f.next_record < f.records.len()
    &&& has_selected(f.stage) ==> f.selected is Some && f.next_dependency <= deps_of(f).len()
    &&& (has_selected(f.stage) && f.stage != Stage::Dependencies) ==> f.next_dependency
        == deps_of(f).len()
}

/// Whether the dependencies a frame has gone through have all been met in the session.
pub open spec fn deps_met(visited: Seq<Seq<char>>, f: FrameView) -> bool {
    has_selected(f.stage) ==> forall|k: int|
        0 <= k < f.next_dependency ==> seq_has(visited, #[trigger] deps_of(f)[k])
}

/// Whether the session is consistent: no capability met twice, every frame consistent with
/// its stage and its dependencies met, and every frame below the top waiting on its
/// dependencies.
pub open spec fn session_ok(s: SessionView) -> bool {
    &&& s.visited.no_duplicates()
    &&& forall|i: int| 0 <= i < s.frames.len() ==> frame_ok(#[trigger] s.frames[i])
    &&& forall|i: int| 0 <= i < s.frames.len() ==> deps_met(s.visited, #[trigger] s.frames[i])
    &&& forall|i: int| 0 <= i < s.frames.len() - 1 ==> (#[trigger] s.frames[i]).stage
        == Stage::Dependencies
}

/// Whether the event is the kind the top frame waits for.
pub open spec fn expects(s: SessionView, e: EventView) -> bool {
    &&& s.frames.len() > 0
    &&& match e {
        EventView::Failed(_) => true,
        EventView::WorkspaceHas(_) => s.frames.last().stage == Stage::CheckingWorkspace,
        EventView::Fetched(_) => s.frames.last().stage == Stage::Fetching,
        EventView::Validated(_, _) => s.frames.last().stage == Stage::Validating,
        EventView::Available(_) => s.frames.last().stage == Stage::Probing,
        EventView::Done => s.frames.last().stage == Stage::Preparing || s.frames.last().stage
            == Stage::Running || s.frames.last().stage == Stage::Installing
            || s.frames.last().stage == Stage::Recording,
    }
}



impl View for LearnSession {
    type V = SessionView;

    closed spec fn view(&self) -> SessionView {
        SessionView {
            workspace: self.workspace_root@,
            providers: self.registry.providers_map(),
            visited: self.visited.deep_view(),
            frames: self.frames@.map_values(|f: Frame| f@),
        }
    }
}

/// The session before anything is learned, over a workspace and a registry.
pub open spec fn initial(workspace: Seq<char>, providers: Map<Seq<char>, Seq<ProviderRefView>>) -> SessionView {
    SessionView { workspace, providers, visited: Seq::empty(), frames: Seq::empty() }
}

impl Frame {
    fn fresh(capability: String) -> (f: Frame)
        ensures
            f@ == fresh_frame(capability@),
    {
        let f = Frame {
            capability,
            stage: Stage::CheckingWorkspace,
            candidates: Vec::new(),
            next_candidate: 0,
            fetched_root: String::new(),
            records: Vec::new(),
            next_record: 0,
            selected: None,
            next_dependency: 0,
        };
        assert(f.candidates.deep_view() =~= Seq::<ProviderRefView>::empty());
        assert(f.records@.map_values(|c: CandidateProvider| c@) =~= Seq::<CandidateView>::empty());
        f
    }
}

impl LearnSession {
    /// Whether the session is consistent.
    pub open spec fn wf(&self) -> bool {
        session_ok(self@)
    }

    /// Removes the top frame and hands it over.
    fn pop_top(&mut self) -> (f: Frame)
        requires
            old(self)@.frames.len() > 0,
        ensures
            f@ == old(self)@.frames.last(),
            final(self)@ == (SessionView { frames: old(self)@.frames.drop_last(), ..old(self)@ }),
    {
        let ghost before = self.frames@;
        let f = self.frames.pop().unwrap();
        assert(self.frames@.map_values(|f: Frame| f@) =~= before.map_values(|f: Frame| f@).drop_last());
        f
    }

    /// Puts a frame on top.
    fn push_top(&mut self, f: Frame)
        ensures
            final(self)@ == (SessionView { frames: old(self)@.frames.push(f@), ..old(self)@ }),
    {
        let ghost before = self.frames@;
        self.frames.push(f);
        assert(self.frames@.map_values(|f: Frame| f@) =~= before.map_values(|f: Frame| f@).push(f@));
    }

    /// Drops every frame.
    fn stop(&mut self)
        ensures
            final(self)@ == stopped(old(self)@),
    {
        self.frames = Vec::new();
        assert(self.frames@.map_values(|f: Frame| f@) =~= Seq::<FrameView>::empty());
    }

    /// Begins learning `capability`.
    fn enter_frame(&mut self, capability: String) -> (a: LearnAction)
        ensures
            (final(self)@, a@) == enter(old(self)@, capability@),
    {
        if crate::text::contains_text(&self.visited, capability.as_str()) {
            let msg = crate::text::concat(
                "cyclic capability dependency detected at ",
                capability.as_str(),
            );
            self.stop();
            LearnAction::Fail(EpistemError::Registry(msg))
        } else {
            let ghost before = self.visited.deep_view();
            self.visited.push(crate::text::owned(capability.as_str()));
            assert(self.visited.deep_view() =~= before.push(capability@));
            let f = Frame::fresh(crate::text::owned(capability.as_str()));
            self.push_top(f);
            LearnAction::CheckWorkspace { capability }
        }
    }

    /// Goes on with the dependencies of the top frame.
    fn next_dependency(&mut self) -> (a: LearnAction)
        requires
            old(self)@.frames.len() > 0,
            old(self)@.frames.last().selected is Some,
            old(self)@.frames.last().next_dependency <= deps_of(old(self)@.frames.last()).len(),
        ensures
            (final(self)@, a@) == advance_dependencies(old(self)@),
    {
        let mut f = self.pop_top();
        let chosen = f.selected.as_ref().unwrap();
        if f.next_dependency < chosen.manifest.dependencies.len() {
            let dependency = crate::text::owned(
                chosen.manifest.dependencies[f.next_dependency].as_str(),
            );
            f.next_dependency = f.next_dependency + 1;
            self.push_top(f);
            self.enter_frame(dependency)
        } else {
            f.stage = Stage::Running;
            self.push_top(f);
            LearnAction::Run
        }
    }

    /// Selects the record at `j` of the top frame.
    fn select_record(&mut self, j: usize) -> (a: LearnAction)
        requires
            old(self)@.frames.len() > 0,
            j < old(self)@.frames.last().records.len(),
        ensures
            (final(self)@, a@) == select(old(self)@, j as nat),
    {
        let mut f = self.pop_top();
        let ghost records = f.records@;
        let chosen = f.records.remove(j);
        assert(f.records@.map_values(|c: CandidateProvider| c@) =~= records.map_values(
            |c: CandidateProvider| c@,
        ).remove(j as int));
        f.stage = Stage::Dependencies;
        f.selected = Some(chosen);
        f.next_dependency = 0;
        self.push_top(f);
        self.next_dependency()
    }

    /// Whether the record at `i` of the top frame offers the frame's capability.
    fn top_offers(&self, i: usize) -> (b: bool)
        requires
            self@.frames.len() > 0,
            i < self@.frames.last().records.len(),
        ensures
            b == seq_has(
                self@.frames.last().records[i as int].manifest.capabilities.deep_view(),
                self@.frames.last().capability,
            ),
    {
        let top = self.frames.len() - 1;
        let f = &self.frames[top];
        crate::text::contains_text(&f.records[i].manifest.capabilities, f.capability.as_str())
    }

    /// Looks for a provider among the records of the top frame from `from` on.
    fn choose_from(&mut self, from: usize) -> (a: LearnAction)
        requires
            old(self)@.frames.len() > 0,
        ensures
            (final(self)@, a@) == advance_selection(old(self)@, from as nat),
    {
        let ghost s0 = self@;
        let top = self.frames.len() - 1;
        let n = self.frames[top].records.len();
        let mut i = from;
        while i < n && !self.top_offers(i)
            invariant
                self@ == s0,
                s0.frames.len() > 0,
                top == s0.frames.len() - 1,
                n == s0.frames.last().records.len(),
                advance_selection(s0, from as nat) == advance_selection(s0, i as nat),
            decreases n - i,
        {
            i = i + 1;
        }
        if i >= n {
            let msg = crate::text::concat(
                "no compatible provider found for capability ",
                self.frames[top].capability.as_str(),
            );
            self.stop();
            LearnAction::Fail(EpistemError::Registry(msg))
        } else {
            let probe = match &self.frames[top].records[i].manifest.install {
                Some(spec) => spec.requires.len() > 0,
                None => false,
            };
            if probe {
                let commands = crate::reasoning::requirement_commands(
                    &self.frames[top].records[i].manifest,
                );
                proof {
                    let m = s0.frames.last().records[i as int].manifest;
                    assert(commands.deep_view() =~= commands_of(m));
                }
                let mut f = self.pop_top();
                f.stage = Stage::Probing;
                f.next_record = i;
                self.push_top(f);
                LearnAction::ProbeCommands { commands }
            } else {
                self.select_record(i)
            }
        }
    }

    /// Finishes the top frame, its provider being at `root`.
    fn complete_frame(&mut self, root: String) -> (a: LearnAction)
        requires
            session_ok(old(self)@),
            old(self)@.frames.len() > 0,
        ensures
            (final(self)@, a@) == complete(old(self)@, root@),
    {
        let ghost s0 = self@;
        let f = self.pop_top();
        if self.frames.len() == 0 {
            LearnAction::Finish(LearnOutcome { capability: f.capability, provider_root: root })
        } else {
            assert(self@.frames.last() == s0.frames[s0.frames.len() - 2]);
            assert(frame_ok(s0.frames[s0.frames.len() - 2]));
            self.next_dependency()
        }
    }

    /// Starts learning `capability` into the workspace at `workspace_root`, with the
    /// providers the registry lists.
    pub fn start(workspace_root: String, registry: RegistryIndex, capability: &str) -> (r: (
        LearnSession,
        LearnAction,
    ))
        ensures
            r.0.wf(),
            (r.0@, r.1@) == enter(initial(workspace_root@, registry.providers_map()), capability@),
    {
        let mut session = LearnSession {
            workspace_root,
            registry,
            visited: Vec::new(),
            frames: Vec::new(),
        };
        assert(session.visited.deep_view() =~= Seq::<Seq<char>>::empty());
        assert(session.frames@.map_values(|f: Frame| f@) =~= Seq::<FrameView>::empty());
        assert(session@ == initial(session.workspace_root@, session.registry.providers_map()));
        proof {
            lemma_enter_ok(session@, capability@);
        }
        let action = session.enter_frame(crate::text::owned(capability));
        (session, action)
    }

    /// Whether learning is still under way.
    pub fn is_active(&self) -> (b: bool)
        ensures
            b == (self@.frames.len() > 0),
    {
        self.frames.len() > 0
    }

    /// Whether the session waits for an event of this kind.
    pub fn accepts(&self, event: &LearnEvent) -> (b: bool)
        ensures
            b == expects(self@, event@),
    {
        if self.frames.len() == 0 {
            return false;
        }
        let stage = self.frames[self.frames.len() - 1].stage;
        match event {
            LearnEvent::Failed(_) => true,
            LearnEvent::WorkspaceHas(_) => stage == Stage::CheckingWorkspace,
            LearnEvent::Fetched(_) => stage == Stage::Fetching,
            LearnEvent::Validated(_) => stage == Stage::Validating,
            LearnEvent::Available(_) => stage == Stage::Probing,
            LearnEvent::Done => stage == Stage::Preparing || stage == Stage::Running || stage
                == Stage::Installing || stage == Stage::Recording,
        }
    }

    /// The provider the top frame has chosen, if it has.
    pub fn selected(&self) -> (r: Option<&CandidateProvider>)
        ensures
            match r {
                Some(c) => self@.frames.len() > 0 && self@.frames.last().selected == Some(c@),
                None => self@.frames.len() == 0 || self@.frames.last().selected is None,
            },
    {
        if self.frames.len() == 0 {
            None
        } else {
            self.frames[self.frames.len() - 1].selected.as_ref()
        }
    }

    /// Takes in what happened and says what to do next.
    pub fn step(&mut self, event: LearnEvent) -> (action: LearnAction)
        requires
            old(self).wf(),
            expects(old(self)@, event@),
        ensures
            final(self).wf(),
            (final(self)@, action@) == next(old(self)@, event@),
    {
        proof {
            law_step_keeps_session(self@, event@);
        }
        let ghost s0 = self@;
        let top = self.frames.len() - 1;
        assert(frame_ok(s0.frames[top as int]));
        let installed = crate::learn::installed_root(
            self.workspace_root.as_str(),
            self.frames[top].capability.as_str(),
        );
        match event {
            LearnEvent::Failed(err) => {
                self.stop();
                LearnAction::Fail(err)
            },
            LearnEvent::WorkspaceHas(has) => {
                if has {
                    self.complete_frame(installed)
                } else {
                    let providers = self.registry.providers_for(self.frames[top].capability.as_str());
                    if providers.len() == 0 {
                        let msg = crate::text::concat(
                            "no providers registered for ",
                            self.frames[top].capability.as_str(),
                        );
                        self.stop();
                        LearnAction::Fail(EpistemError::Registry(msg))
                    } else {
                        let directory = crate::learn::acquired_root(self.workspace_root.as_str());
                        let mut f = self.pop_top();
                        f.stage = Stage::Preparing;
                        f.candidates = providers;
                        self.push_top(f);
                        LearnAction::PrepareAcquisition { directory }
                    }
                }
            },
            LearnEvent::Fetched(root) => {
                let mut f = self.pop_top();
                f.stage = Stage::Validating;
                f.fetched_root = crate::text::owned(root.as_str());
                self.push_top(f);
                LearnAction::Validate { root }
            },
            LearnEvent::Validated(report) => {
                let destination = crate::learn::acquired_root(self.workspace_root.as_str());
                let mut f = self.pop_top();
                let ghost records = f.records@;
                assert(f@.next_candidate < f@.candidates.len());
                assert(f.candidates.deep_view().len() == f.candidates@.len());
                let count = f.candidates.len();
                assert(f.next_candidate < count);
                let valid = report.valid;
                match report.manifest {
                    Some(manifest) => {
                        if valid {
                            let reference = crate::registry::index::copy_ref(
                                &f.candidates[f.next_candidate],
                            );
                            let root = crate::text::owned(f.fetched_root.as_str());
                            let c = CandidateProvider { reference, root, manifest };
                            f.records.push(c);
                            assert(f.records@.map_values(|c: CandidateProvider| c@) =~= records.map_values(
                                |c: CandidateProvider| c@,
                            ).push(c@));
                        }
                    },
                    None => {},
                }
                let k = f.next_candidate + 1;
                f.next_candidate = k;
                if k < f.candidates.len() {
                    let reference = crate::registry::index::copy_ref(&f.candidates[k]);
                    f.stage = Stage::Fetching;
                    self.push_top(f);
                    LearnAction::Fetch { reference, destination }
                } else {
                    f.stage = Stage::Selecting;
                    self.push_top(f);
                    self.choose_from(0)
                }
            },
            LearnEvent::Available(commands) => {
                let j = self.frames[top].next_record;
                assert(self.frames@[top as int]@ == s0.frames.last());
                assert(self.frames[top as int].records@.len() == s0.frames.last().records.len());
                let count = self.frames[top].records.len();
                assert(j < count);
                let ok = crate::reasoning::environment_satisfies(
                    &self.frames[top].records[j].manifest,
                    &commands,
                );
                if ok {
                    self.select_record(j)
                } else {
                    self.choose_from(j + 1)
                }
            },
            LearnEvent::Done => {
                match self.frames[top].stage {
                    Stage::Preparing => {
                        let destination = crate::learn::acquired_root(self.workspace_root.as_str());
                        let mut f = self.pop_top();
                        let reference = crate::registry::index::copy_ref(&f.candidates[0]);
                        f.stage = Stage::Fetching;
                        f.next_candidate = 0;
                        self.push_top(f);
                        LearnAction::Fetch { reference, destination }
                    },
                    Stage::Running => {
                        let mut f = self.pop_top();
                        let source = crate::text::owned(f.selected.as_ref().unwrap().root.as_str());
                        f.stage = Stage::Installing;
                        self.push_top(f);
                        LearnAction::Install { source, destination: installed }
                    },
                    Stage::Installing => {
                        let mut f = self.pop_top();
                        let capability = crate::text::owned(f.capability.as_str());
                        f.stage = Stage::Recording;
                        self.push_top(f);
                        LearnAction::Record { capability }
                    },
                    _ => self.complete_frame(installed),
                }
            },
        }
    }
}

/// Whether an action opens or ends work rather than carrying out a chosen provider: what
/// beginning a capability, choosing among providers or going on with dependencies can ask.
pub open spec fn opening(a: ActionView) -> bool {
    a is Fail || a is CheckWorkspace || a is ProbeCommands || a is Run
}

/// Whether a step keeps the session consistent and what it has met.
pub open spec fn keeps(s: SessionView, r: (SessionView, ActionView)) -> bool {
    &&& session_ok(r.0)
    &&& s.visited.is_prefix_of(r.0.visited)
    &&& r.0.workspace == s.workspace
    &&& r.0.providers == s.providers
}

proof fn lemma_prefix_has(a: Seq<Seq<char>>, b: Seq<Seq<char>>, x: Seq<char>)
    requires
        a.is_prefix_of(b),
        seq_has(a, x),
    ensures
        seq_has(b, x),
{
    let i = choose|i: int| 0 <= i < a.len() && a[i] == x;
    assert(b[i] == a[i]);
}

proof fn lemma_stopped_ok(s: SessionView)
    requires
        session_ok(s),
    ensures
        keeps(s, (stopped(s), ActionView::Run)),
{
    assert(s.visited.is_prefix_of(stopped(s).visited));
}

proof fn lemma_with_top_ok(s: SessionView, f: FrameView)
    requires
        session_ok(s),
        s.frames.len() > 0,
        frame_ok(f),
        deps_met(s.visited, f),
    ensures
        session_ok(with_top(s, f)),
{
    let t = with_top(s, f);
    assert forall|i: int| 0 <= i < t.frames.len() implies frame_ok(#[trigger] t.frames[i])
        && deps_met(t.visited, t.frames[i]) by {
        if i < s.frames.len() - 1 {
            assert(t.frames[i] == s.frames[i]);
        }
    }
    assert forall|i: int| 0 <= i < t.frames.len() - 1 implies (#[trigger] t.frames[i]).stage
        == Stage::Dependencies by {
        assert(t.frames[i] == s.frames[i]);
    }
}

proof fn lemma_push_ok(s: SessionView, f: FrameView)
    requires
        session_ok(s),
        s.frames.len() == 0 || s.frames.last().stage == Stage::Dependencies,
        frame_ok(f),
        deps_met(s.visited, f),
    ensures
        session_ok(SessionView { frames: s.frames.push(f), ..s }),
{
    let t = SessionView { frames: s.frames.push(f), ..s };
    assert forall|i: int| 0 <= i < t.frames.len() implies frame_ok(#[trigger] t.frames[i])
        && deps_met(t.visited, t.frames[i]) by {
        if i < s.frames.len() {
            assert(t.frames[i] == s.frames[i]);
        }
    }
    assert forall|i: int| 0 <= i < t.frames.len() - 1 implies (#[trigger] t.frames[i]).stage
        == Stage::Dependencies by {
        assert(t.frames[i] == s.frames[i]);
    }
}

proof fn lemma_visit_ok(s: SessionView, c: Seq<char>)
    requires
        session_ok(s),
        !seq_has(s.visited, c),
    ensures
        session_ok(SessionView { visited: s.visited.push(c), ..s }),
        s.visited.is_prefix_of(s.visited.push(c)),
        seq_has(s.visited.push(c), c),
{
    let v = s.visited.push(c);
    assert(v[s.visited.len() as int] == c);
    assert(s.visited.is_prefix_of(v)) by {
        assert(s.visited =~= v.subrange(0, s.visited.len() as int));
    }
    assert forall|i: int, j: int| 0 <= i < v.len() && 0 <= j < v.len() && i != j implies v[i]
        != v[j] by {
        if i < s.visited.len() && j < s.visited.len() {
            assert(v[i] == s.visited[i] && v[j] == s.visited[j]);
        } else if i < s.visited.len() {
            assert(v[i] == s.visited[i]);
        } else if j < s.visited.len() {
            assert(v[j] == s.visited[j]);
        }
    }
    assert forall|i: int| 0 <= i < s.frames.len() implies deps_met(v, #[trigger] s.frames[i]) by {
        assert(deps_met(s.visited, s.frames[i]));
        if has_selected(s.frames[i].stage) {
            assert forall|k: int| 0 <= k < s.frames[i].next_dependency implies seq_has(
                v,
                #[trigger] deps_of(s.frames[i])[k],
            ) by {
                lemma_prefix_has(s.visited, v, deps_of(s.frames[i])[k]);
            }
        }
    }
}

proof fn lemma_enter_ok(s: SessionView, c: Seq<char>)
    requires
        session_ok(s),
        s.frames.len() == 0 || s.frames.last().stage == Stage::Dependencies,
    ensures
        keeps(s, enter(s, c)),
        opening(enter(s, c).1),
        !(enter(s, c).1 is Run),
{
    if seq_has(s.visited, c) {
        lemma_stopped_ok(s);
    } else {
        lemma_visit_ok(s, c);
        let s1 = SessionView { visited: s.visited.push(c), ..s };
        lemma_push_ok(s1, fresh_frame(c));
    }
}

proof fn lemma_advance_dependencies_ok(s: SessionView)
    requires
        session_ok(s),
        s.frames.len() > 0,
        s.frames.last().stage == Stage::Dependencies,
    ensures
        keeps(s, advance_dependencies(s)),
        opening(advance_dependencies(s).1),
        advance_dependencies(s).1 is Run ==> advance_dependencies(s).0.frames.len() > 0
            && advance_dependencies(s).0.frames.last().stage == Stage::Running,
{
    let f = s.frames.last();
    assert(frame_ok(s.frames[s.frames.len() - 1]));
    assert(deps_met(s.visited, s.frames[s.frames.len() - 1]));
    let deps = deps_of(f);
    if f.next_dependency < deps.len() {
        let c = deps[f.next_dependency as int];
        let f1 = FrameView { next_dependency: f.next_dependency + 1, ..f };
        assert(deps_of(f1) == deps);
        if seq_has(s.visited, c) {
            lemma_stopped_ok(s);
        } else {
            lemma_visit_ok(s, c);
            let s1 = SessionView { visited: s.visited.push(c), ..s };
            assert(s1.frames.last() == f);
            assert(deps_met(s1.visited, s1.frames[s1.frames.len() - 1]));
            assert(deps_met(s1.visited, f1)) by {
                assert forall|k: int| 0 <= k < f1.next_dependency implies seq_has(
                    s1.visited,
                    #[trigger] deps_of(f1)[k],
                ) by {
                    if k < f.next_dependency {
                        assert(deps_of(f)[k] == deps_of(f1)[k]);
                    }
                }
            }
            lemma_with_top_ok(s1, f1);
            let s2 = with_top(s1, f1);
            assert(s2.frames.last() == f1);
            lemma_push_ok(s2, fresh_frame(c));
            let t = with_top(s, f1);
            assert(enter(t, c).0 == SessionView { frames: s2.frames.push(fresh_frame(c)), ..s2 });
        }
    } else {
        let f1 = FrameView { stage: Stage::Running, ..f };
        assert(deps_of(f1) == deps);
        lemma_with_top_ok(s, f1);
        assert(s.visited.is_prefix_of(s.visited));
    }
}

proof fn lemma_select_ok(s: SessionView, j: nat)
    requires
        session_ok(s),
        s.frames.len() > 0,
        j < s.frames.last().records.len(),
    ensures
        keeps(s, select(s, j)),
        opening(select(s, j).1),
        select(s, j).1 is Run ==> select(s, j).0.frames.len() > 0
            && select(s, j).0.frames.last().stage == Stage::Running,
{
    let f = s.frames.last();
    let f1 = FrameView {
        stage: Stage::Dependencies,
        selected: Some(f.records[j as int]),
        records: f.records.remove(j as int),
        next_dependency: 0,
        ..f
    };
    lemma_with_top_ok(s, f1);
    let s1 = with_top(s, f1);
    assert(s1.frames.last() == f1);
    lemma_advance_dependencies_ok(s1);
}

proof fn lemma_advance_selection_ok(s: SessionView, from: nat)
    requires
        session_ok(s),
        s.frames.len() > 0,
    ensures
        keeps(s, advance_selection(s, from)),
        opening(advance_selection(s, from).1),
        advance_selection(s, from).1 is Run ==> advance_selection(s, from).0.frames.len() > 0
            && advance_selection(s, from).0.frames.last().stage == Stage::Running,
    decreases s.frames.last().records.len() - from,
{
    let f = s.frames.last();
    assert(frame_ok(s.frames[s.frames.len() - 1]));
    assert(deps_met(s.visited, s.frames[s.frames.len() - 1]));
    if from >= f.records.len() {
        lemma_stopped_ok(s);
    } else if !seq_has(f.records[from as int].manifest.capabilities.deep_view(), f.capability) {
        lemma_advance_selection_ok(s, from + 1);
    } else if needs_probe(f.records[from as int].manifest) {
        let f1 = FrameView { stage: Stage::Probing, next_record: from, ..f };
        lemma_with_top_ok(s, f1);
        assert(s.visited.is_prefix_of(s.visited));
    } else {
        lemma_select_ok(s, from);
    }
}

proof fn lemma_complete_ok(s: SessionView, root: Seq<char>)
    requires
        session_ok(s),
        s.frames.len() > 0,
    ensures
        keeps(s, complete(s, root)),
        opening(complete(s, root).1) || complete(s, root).1 is Finish,
        complete(s, root).1 is Run ==> complete(s, root).0.frames.len() > 0
            && complete(s, root).0.frames.last().stage == Stage::Running,
        complete(s, root).1 is Finish ==> s.frames.len() == 1 && complete(s, root).0.frames.len()
            == 0 && complete(s, root).1 == ActionView::Finish(s.frames.last().capability, root),
{
    let rest = SessionView { frames: s.frames.drop_last(), ..s };
    assert forall|i: int| 0 <= i < rest.frames.len() implies frame_ok(#[trigger] rest.frames[i])
        && deps_met(rest.visited, rest.frames[i]) by {
        assert(rest.frames[i] == s.frames[i]);
    }
    assert forall|i: int| 0 <= i < rest.frames.len() - 1 implies (#[trigger] rest.frames[i]).stage
        == Stage::Dependencies by {
        assert(rest.frames[i] == s.frames[i]);
    }
    assert(s.visited.is_prefix_of(s.visited));
    if rest.frames.len() > 0 {
        assert(rest.frames.last() == s.frames[s.frames.len() - 2]);
        lemma_advance_dependencies_ok(rest);
    }
}

/// A step from a consistent session, on an event it waits for, leads to a consistent
/// session: it meets no capability twice, forgets none it has met, keeps its workspace and
/// registry, and leaves every frame consistent with its stage.
pub proof fn law_step_keeps_session(s: SessionView, e: EventView)
    requires
        session_ok(s),
        expects(s, e),
    ensures
        keeps(s, next(s, e)),
        next(s, e).1 is Run ==> next(s, e).0.frames.len() > 0 && next(s, e).0.frames.last().stage
            == Stage::Running,
        next(s, e).1 is Finish ==> s.frames.len() == 1 && next(s, e).0.frames.len() == 0
            && next(s, e).1 == ActionView::Finish(
            s.frames.last().capability,
            installed_root_of(s.workspace, s.frames.last().capability),
        ),
        next(s, e).1 is Install ==> e is Done && s.frames.last().stage == Stage::Running,
        next(s, e).1 is Record ==> e is Done && s.frames.last().stage == Stage::Installing,
{
    let f = s.frames.last();
    assert(frame_ok(s.frames[s.frames.len() - 1]));
    assert(deps_met(s.visited, s.frames[s.frames.len() - 1]));
    let installed = installed_root_of(s.workspace, f.capability);
    assert(s.visited.is_prefix_of(s.visited));
    match e {
        EventView::Failed(err) => {
            lemma_stopped_ok(s);
        },
        EventView::WorkspaceHas(true) => {
            lemma_complete_ok(s, installed);
        },
        EventView::WorkspaceHas(false) => {
            let providers = listed_providers(s, f.capability);
            if providers.len() == 0 {
                lemma_stopped_ok(s);
            } else {
                lemma_with_top_ok(s, FrameView { stage: Stage::Preparing, candidates: providers, ..f });
            }
        },
        EventView::Fetched(root) => {
            lemma_with_top_ok(s, FrameView { stage: Stage::Validating, fetched_root: root, ..f });
        },
        EventView::Validated(manifest, valid) => {
            let records = if manifest is Some && valid {
                f.records.push(
                    CandidateView {
                        reference: f.candidates[f.next_candidate as int],
                        root: f.fetched_root,
                        manifest: manifest->0,
                    },
                )
            } else {
                f.records
            };
            let k = f.next_candidate + 1;
            if k < f.candidates.len() {
                lemma_with_top_ok(
                    s,
                    FrameView { stage: Stage::Fetching, records, next_candidate: k, ..f },
                );
            } else {
                let f1 = FrameView { stage: Stage::Selecting, records, next_candidate: k, ..f };
                lemma_with_top_ok(s, f1);
                let s1 = with_top(s, f1);
                assert(s1.frames.last() == f1);
                lemma_advance_selection_ok(s1, 0);
            }
        },
        EventView::Available(commands) => {
            if environment_satisfied(f.records[f.next_record as int].manifest, commands) {
                lemma_select_ok(s, f.next_record);
            } else {
                lemma_advance_selection_ok(s, f.next_record + 1);
            }
        },
        EventView::Done => {
            match f.stage {
                Stage::Preparing => {
                    lemma_with_top_ok(s, FrameView { stage: Stage::Fetching, next_candidate: 0, ..f });
                },
                Stage::Running => {
                    lemma_with_top_ok(s, FrameView { stage: Stage::Installing, ..f });
                },
                Stage::Installing => {
                    lemma_with_top_ok(s, FrameView { stage: Stage::Recording, ..f });
                },
                _ => {
                    lemma_complete_ok(s, installed);
                },
            }
        },
    }
}


/// The chosen provider is run only once every dependency it declares has been taken up in
/// this learning run.
pub proof fn law_run_after_dependencies(s: SessionView, e: EventView)
    requires
        session_ok(s),
        expects(s, e),
        next(s, e).1 is Run,
    ensures
        ({
            let t = next(s, e).0;
            let top = t.frames.last();
            &&& t.frames.len() > 0
            &&& top.stage == Stage::Running
            &&& top.selected is Some
            &&& forall|k: int| 0 <= k < deps_of(top).len() ==> seq_has(t.visited, #[trigger] deps_of(top)[k])
        }),
{
    law_step_keeps_session(s, e);
    let t = next(s, e).0;
    assert(frame_ok(t.frames[t.frames.len() - 1]));
    assert(deps_met(t.visited, t.frames[t.frames.len() - 1]));
}

/// A provider is installed only when its run has just succeeded, and a capability is
/// recorded in the workspace only when its provider has just been installed.
pub proof fn law_install_after_run(s: SessionView, e: EventView)
    requires
        session_ok(s),
        expects(s, e),
    ensures
        next(s, e).1 is Install ==> e is Done && s.frames.last().stage == Stage::Running,
        next(s, e).1 is Record ==> e is Done && s.frames.last().stage == Stage::Installing,
{
    law_step_keeps_session(s, e);
}

/// Learning ends with success only for the capability it was started on, and names where
/// that capability lives in the workspace.
pub proof fn law_finish_names_installed_root(s: SessionView, e: EventView)
    requires
        session_ok(s),
        expects(s, e),
        next(s, e).1 is Finish,
    ensures
        s.frames.len() == 1,
        next(s, e).0.frames.len() == 0,
        next(s, e).1 == ActionView::Finish(
            s.frames[0].capability,
            installed_root_of(s.workspace, s.frames[0].capability),
        ),
{
    law_step_keeps_session(s, e);
}


/// The error of learning a capability when none of its candidates can provide it.
pub open spec fn no_provider_error(capability: Seq<char>) -> ErrorView {
    ErrorView::Registry("no compatible provider found for capability "@ + capability)
}

/// Whether a candidate offers the capability.
pub open spec fn offers(c: CandidateView, capability: Seq<char>) -> bool {
    seq_has(c.manifest.capabilities.deep_view(), capability)
}

proof fn lemma_cycle_is_no_provider_error(c: Seq<char>, capability: Seq<char>)
    ensures
        ErrorView::Registry("cyclic capability dependency detected at "@ + c) != no_provider_error(
            capability,
        ),
{
    reveal_strlit("cyclic capability dependency detected at ");
    reveal_strlit("no compatible provider found for capability ");
    assert(("cyclic capability dependency detected at "@ + c)[0] == 'c');
    assert(("no compatible provider found for capability "@ + capability)[0] == 'n');
}

proof fn lemma_select_is_no_failure_to_select(s: SessionView, j: nat, capability: Seq<char>)
    requires
        s.frames.len() > 0,
    ensures
        select(s, j).1 != ActionView::Fail(no_provider_error(capability)),
{
    let f = s.frames.last();
    let t = with_top(
        s,
        FrameView {
            stage: Stage::Dependencies,
            selected: Some(f.records[j as int]),
            records: f.records.remove(j as int),
            next_dependency: 0,
            ..f
        },
    );
    let g = t.frames.last();
    let deps = g.selected->0.manifest.dependencies.deep_view();
    if g.next_dependency < deps.len() {
        lemma_cycle_is_no_provider_error(deps[g.next_dependency as int], capability);
    }
}

proof fn lemma_selection_fails_only_without_offer(s: SessionView, from: nat)
    requires
        s.frames.len() > 0,
    ensures
        advance_selection(s, from).1 == ActionView::Fail(no_provider_error(s.frames.last().capability))
            ==> forall|j: int|
            from <= j < s.frames.last().records.len() ==> !offers(
                #[trigger] s.frames.last().records[j],
                s.frames.last().capability,
            ),
    decreases s.frames.last().records.len() - from,
{
    let f = s.frames.last();
    if from >= f.records.len() {
    } else if !seq_has(f.records[from as int].manifest.capabilities.deep_view(), f.capability) {
        lemma_selection_fails_only_without_offer(s, from + 1);
    } else if needs_probe(f.records[from as int].manifest) {
    } else {
        lemma_select_is_no_failure_to_select(s, from, f.capability);
    }
}

/// A provider whose validation report is not valid, or holds no manifest, never becomes a
/// candidate: the session goes on exactly as after a report without a manifest, its
/// candidates stay as they were while providers remain to be fetched, and when it was the
/// last provider, learning fails for want of a provider only if none of the earlier
/// candidates offers the capability.
pub proof fn law_invalid_report_is_skipped(
    s: SessionView,
    manifest: Option<CapabilityManifest>,
    valid: bool,
)
    requires
        session_ok(s),
        expects(s, EventView::Validated(manifest, valid)),
        !(manifest is Some && valid),
    ensures
        next(s, EventView::Validated(manifest, valid)) == next(s, EventView::Validated(None, false)),
        s.frames.last().next_candidate + 1 < s.frames.last().candidates.len() ==> next(
            s,
            EventView::Validated(manifest, valid),
        ).0.frames.last().records == s.frames.last().records,
        next(s, EventView::Validated(manifest, valid)).1 == ActionView::Fail(
            no_provider_error(s.frames.last().capability),
        ) ==> forall|j: int|
            0 <= j < s.frames.last().records.len() ==> !offers(
                #[trigger] s.frames.last().records[j],
                s.frames.last().capability,
            ),
{
    let f = s.frames.last();
    let k = f.next_candidate + 1;
    if k >= f.candidates.len() {
        let t = with_top(
            s,
            FrameView { stage: Stage::Selecting, records: f.records, next_candidate: k, ..f },
        );
        assert(t.frames.last().records == f.records);
        lemma_selection_fails_only_without_offer(t, 0);
    }
}

/// Selection tries every candidate in order: when the machine lacks what the probed
/// candidate requires, learning fails for want of a provider only if no later candidate
/// offers the capability; and it fails only when the probed candidate's requirements are
/// indeed not met.
pub proof fn law_selection_goes_on_after_unmet_requirements(s: SessionView, commands: Seq<Seq<char>>)
    requires
        session_ok(s),
        expects(s, EventView::Available(commands)),
    ensures
        next(s, EventView::Available(commands)).1 == ActionView::Fail(
            no_provider_error(s.frames.last().capability),
        ) ==> !environment_satisfied(
            s.frames.last().records[s.frames.last().next_record as int].manifest,
            commands,
        ) && forall|j: int|
            s.frames.last().next_record < j < s.frames.last().records.len() ==> !offers(
                #[trigger] s.frames.last().records[j],
                s.frames.last().capability,
            ),
{
    let f = s.frames.last();
    if environment_satisfied(f.records[f.next_record as int].manifest, commands) {
        lemma_select_is_no_failure_to_select(s, f.next_record, f.capability);
    } else {
        lemma_selection_fails_only_without_offer(s, f.next_record + 1);
    }
}

} // verus!
