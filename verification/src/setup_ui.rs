//! Setting up models and keys, independent of any conversation.
//!
//! Everything that has to be asked of others goes out as an [`Operation`], and comes back as an
//! [`Update`]. What others rule on at once comes in as [`Rulings`].
use std::collections::hash_map::DefaultHasher;
use std::hash::{BuildHasher, BuildHasherDefault};
use vstd::prelude::*;
use vstd::string::*;
use crate::editor;
use crate::editor::{Editor, EditorView};
use crate::keys::{KeyCode, KeyEvent, MouseEvent, MouseKind};
use crate::number;
use crate::number::{decimal, parse_within};
use crate::scene;
use crate::scene::{clone_optional, down, up, Draft, DraftView, Scene, SceneView, Shown};
use crate::setup;
use crate::setup::{
    clone_texts, make_definition, make_limits, make_name, Candidate, CandidateView, Definition,
    DefinitionView, EffortEntry, EffortView, Limits, ModelRef, ModelRefView, ProviderKind,
    Selection, SelectionView,
};
use crate::slash_ui;
use crate::slash_ui::bump;
use crate::text;
use crate::text::{
    byte_len, cat2, cat3, cat4, cat5, characters, collect, contains_text, is_control, same, trim,
};

verus! {

/// The bytes that a key may have.
pub const SECRET_BYTES: usize = 65536;

/// The screens that can be gone back to.
pub const BACK_SCREENS: usize = 16;

/// Why the place that keys are kept in cannot be used.
#[derive(Clone, Copy, Debug, PartialEq, Eq, Structural)]
pub enum StoreFailure {
    Permissions,
    Corrupt,
    UnsafePath,
    Other,
}

/// Whether there is a key.
#[derive(Debug)]
pub enum Availability {
    Missing,
    Unavailable { failure: StoreFailure, reason: String },
    /// A key, with the variable of the environment that it comes from, if it does.
    Configured { variable: Option<String> },
}

/// What an [`Availability`] says.
pub enum AvailabilityView {
    Missing,
    Unavailable { failure: StoreFailure, reason: Seq<char> },
    Configured { variable: Option<Seq<char>> },
}

impl View for Availability {
    type V = AvailabilityView;

    open spec fn view(&self) -> AvailabilityView {
        match self {
            Availability::Missing => AvailabilityView::Missing,
            Availability::Unavailable { failure, reason } => AvailabilityView::Unavailable {
                failure: *failure,
                reason: reason@,
            },
            Availability::Configured { variable } => AvailabilityView::Configured {
                variable: scene::optional(*variable),
            },
        }
    }
}

/// What is known of a key.
#[derive(Debug)]
pub struct CredentialStatus {
    pub availability: Availability,
    pub editable: bool,
    pub store_path: Option<String>,
}

/// What a [`CredentialStatus`] says.
#[verifier::ext_equal]
pub struct CredentialView {
    pub availability: AvailabilityView,
    pub editable: bool,
    pub store_path: Option<Seq<char>>,
}

impl View for CredentialStatus {
    type V = CredentialView;

    open spec fn view(&self) -> CredentialView {
        CredentialView {
            availability: self.availability@,
            editable: self.editable,
            store_path: scene::optional(self.store_path),
        }
    }
}

impl Clone for CredentialStatus {
    fn clone(&self) -> (r: Self)
        ensures
            r@ == self@,
    {
        CredentialStatus {
            availability: match &self.availability {
                Availability::Missing => Availability::Missing,
                Availability::Unavailable { failure, reason } => Availability::Unavailable {
                    failure: *failure,
                    reason: reason.clone(),
                },
                Availability::Configured { variable } => Availability::Configured {
                    variable: clone_optional(variable),
                },
            },
            editable: self.editable,
            store_path: clone_optional(&self.store_path),
        }
    }
}

/// What an entry of a menu does.
#[derive(Debug)]
pub enum Choice {
    Provider(ProviderKind),
    Existing(Definition),
    DiscoverExisting(Definition),
    New(ProviderKind),
    Route(ModelRef),
    Effort(Selection),
    EffortDefault(Option<String>),
    Candidate(Candidate),
    Discover,
    Manual,
    Login,
    Refresh,
    Credentials,
    Connection,
}

/// What a [`Choice`] says.
pub enum ChoiceView {
    Provider(ProviderKind),
    Existing(DefinitionView),
    DiscoverExisting(DefinitionView),
    New(ProviderKind),
    Route(ModelRefView),
    Effort(SelectionView),
    EffortDefault(Option<Seq<char>>),
    Candidate(CandidateView),
    Discover,
    Manual,
    Login,
    Refresh,
    Credentials,
    Connection,
}

impl View for Choice {
    type V = ChoiceView;

    open spec fn view(&self) -> ChoiceView {
        match self {
            Choice::Provider(p) => ChoiceView::Provider(*p),
            Choice::Existing(d) => ChoiceView::Existing(d@),
            Choice::DiscoverExisting(d) => ChoiceView::DiscoverExisting(d@),
            Choice::New(p) => ChoiceView::New(*p),
            Choice::Route(m) => ChoiceView::Route(m@),
            Choice::Effort(s) => ChoiceView::Effort(s@),
            Choice::EffortDefault(e) => ChoiceView::EffortDefault(scene::optional(*e)),
            Choice::Candidate(c) => ChoiceView::Candidate(c@),
            Choice::Discover => ChoiceView::Discover,
            Choice::Manual => ChoiceView::Manual,
            Choice::Login => ChoiceView::Login,
            Choice::Refresh => ChoiceView::Refresh,
            Choice::Credentials => ChoiceView::Credentials,
            Choice::Connection => ChoiceView::Connection,
        }
    }
}

impl Clone for Choice {
    fn clone(&self) -> (r: Self)
        ensures
            r@ == self@,
    {
        match self {
            Choice::Provider(p) => Choice::Provider(*p),
            Choice::Existing(d) => Choice::Existing(d.clone()),
            Choice::DiscoverExisting(d) => Choice::DiscoverExisting(d.clone()),
            Choice::New(p) => Choice::New(*p),
            Choice::Route(m) => Choice::Route(m.clone()),
            Choice::Effort(s) => Choice::Effort(s.clone()),
            Choice::EffortDefault(e) => Choice::EffortDefault(clone_optional(e)),
            Choice::Candidate(c) => Choice::Candidate(c.clone()),
            Choice::Discover => Choice::Discover,
            Choice::Manual => Choice::Manual,
            Choice::Login => Choice::Login,
            Choice::Refresh => Choice::Refresh,
            Choice::Credentials => Choice::Credentials,
            Choice::Connection => Choice::Connection,
        }
    }
}

/// What is asked for in a line of text.
#[derive(Clone, Copy, Debug, PartialEq, Eq, Structural)]
pub enum Field {
    Name,
    Endpoint,
    Model,
    Context,
    Output,
    Efforts,
}

/// What a screen asks for.
#[derive(Debug)]
pub enum Stage {
    Menu(Vec<(String, Choice)>),
    Text(Field),
    Secret,
}

/// What a [`Stage`] says.
pub enum StageView {
    Menu(Seq<(Seq<char>, ChoiceView)>),
    Text(Field),
    Secret,
}

/// What the entries of a menu say.
pub open spec fn entries_of(v: Seq<(String, Choice)>) -> Seq<(Seq<char>, ChoiceView)> {
    Seq::new(v.len(), |i: int| (v[i].0@, v[i].1@))
}

impl View for Stage {
    type V = StageView;

    open spec fn view(&self) -> StageView {
        match self {
            Stage::Menu(items) => StageView::Menu(entries_of(items@)),
            Stage::Text(field) => StageView::Text(*field),
            Stage::Secret => StageView::Secret,
        }
    }
}

impl Clone for Stage {
    fn clone(&self) -> (r: Self)
        ensures
            r@ == self@,
    {
        match self {
            Stage::Menu(items) => {
                let mut out: Vec<(String, Choice)> = Vec::new();
                let mut i: usize = 0;
                while i < items.len()
                    invariant
                        i <= items@.len(),
                        entries_of(out@) == entries_of(items@).take(i as int),
                    decreases items@.len() - i,
                {
                    let ghost before = entries_of(out@);
                    out.push((items[i].0.clone(), items[i].1.clone()));
                    proof {
                        let e = (items@[i as int].0@, items@[i as int].1@);
                        assert(entries_of(out@) =~= before.push(e));
                        assert(entries_of(items@).take(i as int + 1) =~= before.push(e));
                    }
                    i += 1;
                }
                proof {
                    assert(entries_of(items@).take(i as int) =~= entries_of(items@));
                }
                Stage::Menu(out)
            },
            Stage::Text(field) => Stage::Text(*field),
            Stage::Secret => Stage::Secret,
        }
    }
}

/// A key that an integration uses.
#[derive(Debug)]
pub enum Integration {
    Mcp { server: String, slot: String },
    Exa,
}

/// What an [`Integration`] says.
pub enum IntegrationView {
    Mcp { server: Seq<char>, slot: Seq<char> },
    Exa,
}

impl View for Integration {
    type V = IntegrationView;

    open spec fn view(&self) -> IntegrationView {
        match self {
            Integration::Mcp { server, slot } => IntegrationView::Mcp {
                server: server@,
                slot: slot@,
            },
            Integration::Exa => IntegrationView::Exa,
        }
    }
}

impl IntegrationView {
    pub open spec fn title(self) -> Seq<char> {
        match self {
            IntegrationView::Mcp { server, slot } => "MCP credential · "@ + server + " · "@ + slot,
            IntegrationView::Exa => "Exa search credential"@,
        }
    }

    pub open spec fn saved(self) -> Seq<char> {
        match self {
            IntegrationView::Mcp { .. } =>
                "Credential saved. Close this screen and refresh the MCP connection to verify access."@,
            IntegrationView::Exa =>
                "Exa credential saved. No search was submitted. Enable web_search separately for new conversations."@,
        }
    }
}

impl Integration {
    /// The title of the screen that asks for the key.
    pub fn title(&self) -> (r: String)
        ensures
            r@ == self@.title(),
    {
        match self {
            Integration::Mcp { server, slot } => cat4(
                "MCP credential · ",
                server.as_str(),
                " · ",
                slot.as_str(),
            ),
            Integration::Exa => "Exa search credential".to_owned(),
        }
    }

    /// What is said once the key is saved.
    pub fn saved(&self) -> (r: &'static str)
        ensures
            r@ == self@.saved(),
    {
        match self {
            Integration::Mcp { .. } =>
                "Credential saved. Close this screen and refresh the MCP connection to verify access.",
            Integration::Exa =>
                "Exa credential saved. No search was submitted. Enable web_search separately for new conversations.",
        }
    }
}

/// The command that setting up was opened with.
#[derive(Clone, Copy, Debug, PartialEq, Eq, Structural)]
pub enum Opening {
    Login(Option<ProviderKind>),
    Models,
    Effort,
    Other,
}

/// A screen that can be gone back to.
#[derive(Debug)]
pub struct Screen {
    pub prefix: Option<String>,
    pub declare_effort: bool,
    pub stage: Stage,
    pub title: String,
    pub editor: Editor,
    pub selected: usize,
    pub candidate: Option<Candidate>,
    pub definition: Option<Definition>,
    pub existing: bool,
    pub editing_connection: bool,
}

/// What a [`Screen`] says.
#[verifier::ext_equal]
pub struct ScreenView {
    pub prefix: Option<Seq<char>>,
    pub declare_effort: bool,
    pub stage: StageView,
    pub title: Seq<char>,
    pub editor: EditorView,
    pub selected: usize,
    pub candidate: Option<CandidateView>,
    pub definition: Option<DefinitionView>,
    pub existing: bool,
    pub editing_connection: bool,
}

pub open spec fn candidate_of(c: Option<Candidate>) -> Option<CandidateView> {
    match c {
        Some(c) => Some(c@),
        None => None,
    }
}

pub open spec fn definition_of(d: Option<Definition>) -> Option<DefinitionView> {
    match d {
        Some(d) => Some(d@),
        None => None,
    }
}

pub open spec fn selection_of(s: Option<Selection>) -> Option<SelectionView> {
    match s {
        Some(s) => Some(s@),
        None => None,
    }
}

pub open spec fn credential_of(c: Option<CredentialStatus>) -> Option<CredentialView> {
    match c {
        Some(c) => Some(c@),
        None => None,
    }
}

impl View for Screen {
    type V = ScreenView;

    open spec fn view(&self) -> ScreenView {
        ScreenView {
            prefix: scene::optional(self.prefix),
            declare_effort: self.declare_effort,
            stage: self.stage@,
            title: self.title@,
            editor: self.editor@,
            selected: self.selected,
            candidate: candidate_of(self.candidate),
            definition: definition_of(self.definition),
            existing: self.existing,
            editing_connection: self.editing_connection,
        }
    }
}

fn clone_candidate(c: &Option<Candidate>) -> (r: Option<Candidate>)
    ensures
        candidate_of(r) == candidate_of(*c),
{
    match c {
        Some(c) => Some(c.clone()),
        None => None,
    }
}

fn clone_definition(d: &Option<Definition>) -> (r: Option<Definition>)
    ensures
        definition_of(r) == definition_of(*d),
{
    match d {
        Some(d) => Some(d.clone()),
        None => None,
    }
}

/// What the configuration is known to hold.
#[derive(Debug)]
pub struct Snapshot {
    pub allowed: bool,
    pub providers: Option<Vec<Definition>>,
    /// The provider, the slot and the status of the key that was looked at last.
    pub credential: Option<(ProviderKind, String, CredentialStatus)>,
    /// Operations that were done, and their outcomes.
    pub receipts: Vec<(String, String)>,
}

/// What a [`Snapshot`] says.
#[verifier::ext_equal]
pub struct SnapshotView {
    pub allowed: bool,
    pub providers: Option<Seq<DefinitionView>>,
    pub credential: Option<(ProviderKind, Seq<char>, CredentialView)>,
    pub receipts: Seq<(Seq<char>, Seq<char>)>,
}

pub open spec fn definitions_of(v: Seq<Definition>) -> Seq<DefinitionView> {
    Seq::new(v.len(), |i: int| v[i]@)
}

impl View for Snapshot {
    type V = SnapshotView;

    open spec fn view(&self) -> SnapshotView {
        SnapshotView {
            allowed: self.allowed,
            providers: match self.providers {
                Some(v) => Some(definitions_of(v@)),
                None => None,
            },
            credential: match self.credential {
                Some((p, s, c)) => Some((p, s@, c@)),
                None => None,
            },
            receipts: slash_ui::items_of(self.receipts@),
        }
    }
}

impl SnapshotView {
    /// Nothing is known.
    pub open spec fn blank() -> SnapshotView {
        SnapshotView { allowed: false, providers: None, credential: None, receipts: seq![] }
    }
}

impl Snapshot {
    pub fn blank() -> (r: Snapshot)
        ensures
            r@ == SnapshotView::blank(),
    {
        let r = Snapshot {
            allowed: false,
            providers: None,
            credential: None,
            receipts: Vec::new(),
        };
        proof {
            assert(r@ =~= SnapshotView::blank());
        }
        r
    }
}

/// Where models are looked for.
#[derive(Debug)]
pub struct Request {
    pub provider: ProviderKind,
    pub endpoint: String,
    pub slot: String,
}

/// What a [`Request`] says.
#[verifier::ext_equal]
pub struct RequestView {
    pub provider: ProviderKind,
    pub endpoint: Seq<char>,
    pub slot: Seq<char>,
}

impl View for Request {
    type V = RequestView;

    open spec fn view(&self) -> RequestView {
        RequestView { provider: self.provider, endpoint: self.endpoint@, slot: self.slot@ }
    }
}

/// Something that is asked of others.
#[derive(Debug)]
pub enum Operation {
    /// Read the configuration, and the models unless only efforts are looked for.
    Open(Opening),
    ReadIntegration,
    SetIntegration(String),
    CredentialStatus { provider: ProviderKind, slot: String },
    CredentialSet { provider: ProviderKind, slot: String, secret: String },
    Discover(Request),
    /// Fails at once with this problem.
    Refused(String),
    Describe(ModelRef),
    Save { definition: Definition, model: ModelRef },
    Default(Selection),
}

/// What an [`Operation`] says.
pub enum OperationView {
    Open(Opening),
    ReadIntegration,
    SetIntegration(Seq<char>),
    CredentialStatus { provider: ProviderKind, slot: Seq<char> },
    CredentialSet { provider: ProviderKind, slot: Seq<char>, secret: Seq<char> },
    Discover(RequestView),
    Refused(Seq<char>),
    Describe(ModelRefView),
    Save { definition: DefinitionView, model: ModelRefView },
    Default(SelectionView),
}

impl View for Operation {
    type V = OperationView;

    open spec fn view(&self) -> OperationView {
        match self {
            Operation::Open(o) => OperationView::Open(*o),
            Operation::ReadIntegration => OperationView::ReadIntegration,
            Operation::SetIntegration(s) => OperationView::SetIntegration(s@),
            Operation::CredentialStatus { provider, slot } => OperationView::CredentialStatus {
                provider: *provider,
                slot: slot@,
            },
            Operation::CredentialSet { provider, slot, secret } => OperationView::CredentialSet {
                provider: *provider,
                slot: slot@,
                secret: secret@,
            },
            Operation::Discover(r) => OperationView::Discover(r@),
            Operation::Refused(s) => OperationView::Refused(s@),
            Operation::Describe(m) => OperationView::Describe(m@),
            Operation::Save { definition, model } => OperationView::Save {
                definition: definition@,
                model: model@,
            },
            Operation::Default(s) => OperationView::Default(s@),
        }
    }
}

pub open spec fn operation_of(op: Option<Operation>) -> Option<OperationView> {
    match op {
        Some(op) => Some(op@),
        None => None,
    }
}

/// What came of an operation.
#[derive(Debug)]
pub enum Update {
    Open(Opening, Vec<ModelRef>),
    Credential,
    CredentialStatus,
    IntegrationCredential { status: Option<CredentialStatus>, saved: bool },
    Discovered(Vec<Candidate>),
    Saved(ModelRef),
    /// The efforts that a model supports, and the one that its provider uses by itself.
    Efforts { model: ModelRef, supported: Vec<String>, default: Option<String> },
    Selected(Selection),
}

/// What an [`Update`] says.
pub enum UpdateView {
    Open(Opening, Seq<ModelRefView>),
    Credential,
    CredentialStatus,
    IntegrationCredential { status: Option<CredentialView>, saved: bool },
    Discovered(Seq<CandidateView>),
    Saved(ModelRefView),
    Efforts { model: ModelRefView, supported: Seq<Seq<char>>, default: Option<Seq<char>> },
    Selected(SelectionView),
}

pub open spec fn routes_of(v: Seq<ModelRef>) -> Seq<ModelRefView> {
    Seq::new(v.len(), |i: int| v[i]@)
}

pub open spec fn candidates_of(v: Seq<Candidate>) -> Seq<CandidateView> {
    Seq::new(v.len(), |i: int| v[i]@)
}

impl View for Update {
    type V = UpdateView;

    open spec fn view(&self) -> UpdateView {
        match self {
            Update::Open(o, routes) => UpdateView::Open(*o, routes_of(routes@)),
            Update::Credential => UpdateView::Credential,
            Update::CredentialStatus => UpdateView::CredentialStatus,
            Update::IntegrationCredential {
                status,
                saved,
            } => UpdateView::IntegrationCredential { status: credential_of(*status), saved: *saved },
            Update::Discovered(models) => UpdateView::Discovered(candidates_of(models@)),
            Update::Saved(model) => UpdateView::Saved(model@),
            Update::Efforts { model, supported, default } => UpdateView::Efforts {
                model: model@,
                supported: text::views(supported@),
                default: scene::optional(*default),
            },
            Update::Selected(s) => UpdateView::Selected(s@),
        }
    }
}

/// What others rule on what is entered. A problem is why it is refused.
#[derive(Debug)]
pub struct Rulings {
    /// On the trimmed text of the field: a name, a model or efforts.
    pub value: Option<String>,
    /// On the place where models are looked for, as it is once the entry is taken in.
    pub request: Option<String>,
    /// On the model that is saved, as one of its deployment.
    pub route: Option<String>,
    /// On the sizes that a model is given.
    pub limits: Option<String>,
    /// On an effort as the default of those that are declared.
    pub effort: Option<String>,
    /// What is said of a declaration that is missing or cannot be read.
    pub unreadable: String,
    /// The sizes of the chosen model, as far as they are known once what is built in is added.
    pub context: Option<u32>,
    pub output: Option<u32>,
    /// Whether the key that is held is one.
    pub secret: bool,
}

/// What [`Rulings`] say.
pub struct RulingsView {
    pub value: Option<Seq<char>>,
    pub request: Option<Seq<char>>,
    pub route: Option<Seq<char>>,
    pub limits: Option<Seq<char>>,
    pub effort: Option<Seq<char>>,
    pub unreadable: Seq<char>,
    pub context: Option<u32>,
    pub output: Option<u32>,
    pub secret: bool,
}

impl View for Rulings {
    type V = RulingsView;

    open spec fn view(&self) -> RulingsView {
        RulingsView {
            value: scene::optional(self.value),
            request: scene::optional(self.request),
            route: scene::optional(self.route),
            limits: scene::optional(self.limits),
            effort: scene::optional(self.effort),
            unreadable: self.unreadable@,
            context: self.context,
            output: self.output,
            secret: self.secret,
        }
    }
}

/// Everything that setting up remembers.
pub struct UiView {
    pub prefix: Option<Seq<char>>,
    pub declare_effort: bool,
    /// Whether there is a configuration to change.
    pub feature: bool,
    pub integration: Option<IntegrationView>,
    pub active: bool,
    pub attached: bool,
    pub stage: StageView,
    pub title: Seq<char>,
    pub status: Seq<char>,
    pub selected: usize,
    pub editor: EditorView,
    pub secret: Seq<char>,
    pub view: SnapshotView,
    pub deployments: Seq<Seq<char>>,
    pub definition: Option<DefinitionView>,
    pub candidate: Option<CandidateView>,
    pub save_default: bool,
    pub effort_selection: Option<SelectionView>,
    pub pending: bool,
    /// Whether what is pending changes something.
    pub mutation: bool,
    /// Whether what comes back is acted on.
    pub followup: bool,
    pub attempt: u64,
    pub menu_revision: u64,
    pub back: Seq<ScreenView>,
    pub credential: Option<CredentialView>,
    pub existing: bool,
    pub editing_connection: bool,
    pub chosen: Option<SelectionView>,
}

/// A new state, what is asked of others, and what went wrong.
pub struct Out {
    pub ui: UiView,
    pub op: Option<OperationView>,
    pub problem: Option<Seq<char>>,
}

/// What a function of the state gave.
pub open spec fn out(ui: UiView, r: Result<Option<Operation>, String>) -> Out {
    match r {
        Ok(op) => Out { ui, op: operation_of(op), problem: None },
        Err(e) => Out { ui, op: None, problem: Some(e@) },
    }
}

pub open spec fn done(ui: UiView) -> Out {
    Out { ui, op: None, problem: None }
}

pub open spec fn asking(ui: UiView, op: OperationView) -> Out {
    Out { ui, op: Some(op), problem: None }
}

pub open spec fn failing(ui: UiView, problem: Seq<char>) -> Out {
    Out { ui, op: None, problem: Some(problem) }
}

/// A text in lower case.
pub uninterp spec fn lowered(s: Seq<char>) -> Seq<char>;

/// `str::to_lowercase`: the text in lower case, which depends on the text alone.
#[verifier::external_body]
fn lower(s: &str) -> (r: String)
    ensures
        r@ == lowered(s@),
{
    s.to_lowercase()
}

/// `Zeroize::zeroize` of a `String`: overwrites the bytes of the text and leaves it empty.
#[verifier::external_body]
fn wipe(s: &mut String)
    ensures
        final(s)@ == Seq::<char>::empty(),
{
    zeroize::Zeroize::zeroize(s)
}

/// `String::pop`: takes the last character off, if there is one.
pub assume_specification[ String::pop ](s: &mut String) -> (c: Option<char>)
    ensures
        old(s)@.len() == 0 ==> c is None && final(s)@ == old(s)@,
        old(s)@.len() > 0 ==> c == Some(old(s)@.last()) && final(s)@ == old(s)@.drop_last(),
;

/// `String::reserve`, with what `String::capacity` says afterwards: the text stays as it is, and at
/// least as many bytes are allocated as it has and as were asked for. How many more is up to the
/// allocator.
#[verifier::external_body]
fn reserve(s: &mut String, additional: usize) -> (allocated: usize)
    requires
        text::size(old(s)@) + additional <= isize::MAX,
    ensures
        final(s)@ == old(s)@,
        allocated >= text::size(old(s)@) + additional,
{
    s.reserve(additional);
    s.capacity()
}

/// What tells one menu from another: the attempt, the number of the menu, its title, its filter and
/// what is selected.
pub struct PartsView {
    pub attempt: u64,
    pub menu: u64,
    pub title: Seq<char>,
    pub filter: Seq<char>,
    pub selected: usize,
}

/// `BuildHasher::hash_one` of the default hasher, over what tells one menu from another. Which number
/// it is depends on the machine, so nothing is claimed of it.
#[verifier::external_body]
fn fingerprint(parts: (u64, u64, &str, &str, usize)) -> (r: u64) {
    BuildHasherDefault::<DefaultHasher>::default().hash_one(parts)
}

/// The indices of the first `n` entries whose label contains a filter, in any case.
pub open spec fn filtered(items: Seq<(Seq<char>, ChoiceView)>, query: Seq<char>, n: int) -> Seq<
    usize,
>
    decreases n,
{
    if n <= 0 {
        seq![]
    } else {
        let before = filtered(items, query, n - 1);
        if text::includes(lowered(items[n - 1].0), lowered(query)) {
            before.push((n - 1) as usize)
        } else {
            before
        }
    }
}

/// The texts between commas, without white space around them.
pub open spec fn listed_ids(s: Seq<char>) -> Seq<Seq<char>>
    decreases s.len(),
{
    let comma = comma_at(s);
    if comma >= s.len() {
        seq![text::trimmed(s)]
    } else {
        seq![text::trimmed(s.take(comma as int))] + listed_ids(s.skip(comma as int + 1))
    }
}

/// The number of characters before the first comma.
pub open spec fn comma_at(s: Seq<char>) -> nat
    decreases s.len(),
{
    if s.len() == 0 || s[0] == ',' {
        0
    } else {
        1 + comma_at(s.drop_first())
    }
}

/// Whether a text holds a control character.
pub open spec fn controlled(s: Seq<char>) -> bool {
    exists|i: int| 0 <= i < s.len() && text::control(#[trigger] s[i])
}

impl UiView {
    /// A menu.
    pub open spec fn menu(self, title: Seq<char>, items: Seq<(Seq<char>, ChoiceView)>) -> UiView {
        UiView {
            prefix: None,
            menu_revision: slash_ui::bumped(self.menu_revision),
            status: seq![],
            title,
            stage: StageView::Menu(items),
            selected: 0,
            editor: EditorView::over(seq![], 512),
            ..self
        }
    }

    /// A line of text to enter.
    pub open spec fn field(self, title: Seq<char>, field: Field, value: Seq<char>) -> UiView {
        UiView {
            prefix: None,
            status: seq![],
            title,
            stage: StageView::Text(field),
            editor: EditorView::over(value, 2048),
            ..self
        }
    }

    /// Where models are looked for, or why that cannot be said.
    pub open spec fn request(self, r: RulingsView) -> Result<RequestView, Seq<char>> {
        match self.definition {
            None => Err("Choose a provider"@),
            Some(d) => match d.endpoint {
                None => Err("Missing endpoint"@),
                Some(endpoint) => match d.slot {
                    None => Err("Missing credential slot"@),
                    Some(slot) => match r.request {
                        Some(problem) => Err(problem),
                        None => Ok(RequestView { provider: d.provider, endpoint, slot }),
                    },
                },
            },
        }
    }

    /// The screen that asks for the key, once its place is known.
    #[verifier::opaque]
    pub open spec fn credentials(self, r: RulingsView) -> Out {
        let v = UiView { secret: seq![], credential: None, status: seq![], ..self };
        match v.request(r) {
            Err(problem) => failing(v, problem),
            Ok(request) => if !v.feature {
                failing(v, "Setup unavailable"@)
            } else {
                asking(
                    UiView {
                        stage: StageView::Secret,
                        title: "API key · masked"@,
                        prefix: None,
                        editor: EditorView::blank(),
                        pending: true,
                        mutation: false,
                        ..v
                    },
                    OperationView::CredentialStatus {
                        provider: request.provider,
                        slot: request.slot,
                    },
                )
            },
        }
    }

    /// Models are looked for.
    #[verifier::opaque]
    pub open spec fn discovering(self, r: RulingsView) -> Out {
        if !self.feature {
            done(self)
        } else {
            asking(
                UiView {
                    prefix: Some("/model "@),
                    pending: true,
                    mutation: false,
                    ..self.menu("Discover models"@, seq![])
                },
                match self.request(r) {
                    Ok(request) => OperationView::Discover(request),
                    Err(problem) => OperationView::Refused(problem),
                },
            )
        }
    }

    /// The menu of found models, and of the other ways to get one.
    #[verifier::opaque]
    pub open spec fn discovered(self, models: Seq<CandidateView>) -> UiView {
        UiView {
            prefix: Some("/model "@),
            ..self.menu(
                if self.attached {
                    "Choose model"@
                } else {
                    "Set default and start · choose model"@
                },
                Seq::new(models.len(), |i: int| (models[i].id, ChoiceView::Candidate(models[i])))
                    + seq![
                    ("Discover / refresh online…"@, ChoiceView::Discover),
                    ("Enter model manually…"@, ChoiceView::Manual),
                    ("Change API key…"@, ChoiceView::Credentials),
                    ("Edit connection settings…"@, ChoiceView::Connection),
                ],
            )
        }
    }

    /// Whether a deployment of this name exists.
    pub open spec fn name_exists(self, name: Seq<char>) -> bool {
        self.deployments.contains(name) || (self.view.providers matches Some(v) && exists|i: int|
            0 <= i < v.len() && (#[trigger] v[i]).deployment == Some(name))
    }

    /// Whether a deployment of this provider is known.
    pub open spec fn provider_known(self, provider: ProviderKind) -> bool {
        self.view.providers matches Some(v) && exists|i: int|
            0 <= i < v.len() && (#[trigger] v[i]).provider == provider
    }

    /// The deployment under its name. A new one gets a slot of its own where its provider has
    /// others already.
    pub open spec fn named(self, name: Seq<char>) -> DefinitionView {
        let d = self.definition->0;
        let old = if d.deployment is Some {
            d.deployment->0
        } else {
            seq![]
        };
        DefinitionView {
            deployment: Some(name),
            slot: if !self.existing || name != old {
                Some(
                    if self.provider_known(d.provider) {
                        name
                    } else {
                        "default"@
                    },
                )
            } else {
                d.slot
            },
            ..d
        }
    }

    /// What follows the name of a deployment: its endpoint where that can be changed, else its
    /// key.
    #[verifier::opaque]
    pub open spec fn naming(self, name: Seq<char>, r: RulingsView) -> Out {
        if self.definition is None {
            failing(self, "Choose provider"@)
        } else {
            let d = self.named(name);
            let v = UiView { definition: Some(d), ..self };
            if d.provider is OpenaiCompatible || v.existing || v.editing_connection {
                done(
                    v.field(
                        "API base URL · compatible services include /v1 if needed"@,
                        Field::Endpoint,
                        if d.endpoint is Some {
                            d.endpoint->0
                        } else {
                            seq![]
                        },
                    ),
                )
            } else {
                v.credentials(r)
            }
        }
    }

    /// Whether a choice saves the model as the default.
    pub open spec fn saving(self, choice: ChoiceView, default: bool) -> bool {
        default || !self.attached || ((choice is Effort || choice is EffortDefault)
            && self.save_default)
    }

    /// A new deployment of a provider.
    #[verifier::opaque]
    pub open spec fn starting(self, provider: ProviderKind, r: RulingsView) -> Out {
        let v = UiView {
            definition: Some(setup::first_definition(provider)),
            existing: false,
            ..self
        };
        if v.name_exists(setup::first_name(provider)) {
            done(
                v.field(
                    "Deployment name · must be unique"@,
                    Field::Name,
                    setup::first_name(provider),
                ),
            )
        } else {
            v.naming(setup::first_name(provider), r)
        }
    }

    /// The first `n` known deployments of a provider, as choices.
    pub open spec fn usable(self, provider: ProviderKind, n: int) -> Seq<(Seq<char>, ChoiceView)>
        decreases n,
    {
        if n <= 0 {
            seq![]
        } else {
            let before = self.usable(provider, n - 1);
            let d = self.view.providers->0[n - 1];
            if d.provider == provider {
                before.push(
                    (
                        "Use "@ + (if d.deployment is Some {
                            d.deployment->0
                        } else {
                            "deployment"@
                        }),
                        ChoiceView::Existing(d),
                    ),
                )
            } else {
                before
            }
        }
    }

    /// The deployments of a provider to log in to. Where there is none, a new one is started.
    #[verifier::opaque]
    pub open spec fn logging_in(self, provider: ProviderKind, r: RulingsView) -> Out {
        let items = if self.view.providers is Some {
            self.usable(provider, self.view.providers->0.len() as int)
        } else {
            seq![]
        };
        if items.len() == 0 {
            let o = UiView {
                save_default: self.saving(ChoiceView::New(provider), false),
                ..self
            }.starting(provider, r);
            match o.problem {
                Some(problem) => done(UiView { status: problem, ..o.ui }),
                None => o,
            }
        } else {
            done(
                self.menu(
                    "Log in · choose deployment"@,
                    items.push(("New deployment…"@, ChoiceView::New(provider))),
                ),
            )
        }
    }

    /// The efforts of a model are looked up.
    #[verifier::opaque]
    pub open spec fn describing(self, model: ModelRefView) -> Out {
        let v = if self.effort_selection is None {
            UiView {
                prefix: Some("/model "@ + model.model + " "@),
                editor: EditorView::blank(),
                stage: StageView::Menu(seq![]),
                title: "Reasoning effort"@,
                ..self
            }
        } else {
            self
        };
        asking(
            UiView {
                status: "Loading model capabilities…"@,
                pending: true,
                mutation: false,
                ..v
            },
            OperationView::Describe(model),
        )
    }

    /// A model and an effort are chosen, and saved where they are to be the default.
    #[verifier::opaque]
    pub open spec fn selecting(self, selection: SelectionView) -> Out {
        if self.save_default {
            if !self.feature {
                failing(self, "Setup unavailable"@)
            } else {
                asking(
                    UiView { pending: true, mutation: true, ..self },
                    OperationView::Default(selection),
                )
            }
        } else {
            done(UiView { chosen: Some(selection), active: false, ..self })
        }
    }

    /// A model is saved with its sizes, after its efforts where it was entered by hand.
    #[verifier::opaque]
    pub open spec fn saved(self, id: Seq<char>, limits: Limits, r: RulingsView) -> Out {
        if self.declare_effort {
            let v = UiView { declare_effort: false, ..self };
            match v.definition {
                None => failing(v, "Choose provider"@),
                Some(d) => done(
                    UiView {
                        definition: Some(d.declaring(id, limits)),
                        candidate: Some(CandidateView { id, context: None, output: None }),
                        ..v
                    }.field(
                        "Effort IDs · comma-separated · optional"@,
                        Field::Efforts,
                        seq![],
                    ),
                ),
            }
        } else {
            match self.definition {
                None => failing(self, "Choose provider"@),
                Some(d) => match d.deployment {
                    None => failing(self, "Deployment name"@),
                    Some(deployment) => match r.route {
                        Some(problem) => failing(self, problem),
                        None => if !self.feature {
                            failing(self, "Setup unavailable"@)
                        } else {
                            asking(
                                UiView {
                                    pending: true,
                                    mutation: true,
                                    status: "Saving provider configuration…"@,
                                    ..self
                                },
                                OperationView::Save {
                                    definition: d.declaring(id, limits),
                                    model: ModelRefView { deployment, model: id },
                                },
                            )
                        },
                    },
                },
            }
        }
    }

    /// A model whose sizes and efforts were entered by hand is saved.
    #[verifier::opaque]
    pub open spec fn saved_declared(self, r: RulingsView) -> Out {
        match self.candidate {
            None => failing(self, "Choose model"@),
            Some(c) => match self.definition {
                None => failing(self, "Choose provider"@),
                Some(d) => match d.limits(c.id) {
                    Some(Some(limits)) => self.saved(c.id, limits, r),
                    _ => failing(self, r.unreadable),
                },
            },
        }
    }

    /// The sizes of the chosen model, which are asked for where they are not known.
    #[verifier::opaque]
    pub open spec fn limiting(self, r: RulingsView) -> Out {
        match self.candidate {
            None => failing(self, "Choose model"@),
            Some(c) => match c.context {
                None => done(
                    self.field(
                        "Context window tokens · positive integer"@,
                        Field::Context,
                        seq![],
                    ),
                ),
                Some(context) => match c.output {
                    Some(output) => if output < context {
                        match r.limits {
                            Some(problem) => failing(self, problem),
                            None => self.saved(c.id, setup::limits_for(context, output), r),
                        }
                    } else {
                        done(self.output_field(seq![]))
                    },
                    None => done(self.output_field(seq![])),
                },
            },
        }
    }

    pub open spec fn output_field(self, value: Seq<char>) -> UiView {
        self.field("Maximum output tokens · less than context window"@, Field::Output, value)
    }

    /// A model is chosen. Its declared sizes are used, or what is known of it.
    #[verifier::opaque]
    pub open spec fn proposing(self, c: CandidateView, r: RulingsView) -> Out {
        match self.request(r) {
            Err(problem) => failing(self, problem),
            Ok(_) => match self.definition->0.limits(c.id) {
                Some(Some(limits)) => self.saved(c.id, limits, r),
                Some(None) => failing(self, r.unreadable),
                None => UiView {
                    candidate: Some(
                        CandidateView { id: c.id, context: r.context, output: r.output },
                    ),
                    ..self
                }.limiting(r),
            },
        }
    }

    /// The default of declared efforts is chosen, and the model saved.
    #[verifier::opaque]
    pub open spec fn defaulting(self, default: Option<Seq<char>>, r: RulingsView) -> Out {
        match self.candidate {
            None => failing(self, "Choose model"@),
            Some(c) => match self.definition {
                None => failing(self, "Choose provider"@),
                Some(d) => match d.effort(c.id) {
                    None => failing(self, r.unreadable),
                    Some(e) => match r.effort {
                        Some(problem) => failing(self, problem),
                        None => UiView {
                            definition: Some(d.with_effort(EffortView { default, ..e })),
                            ..self
                        }.saved_declared(r),
                    },
                },
            },
        }
    }

    /// Setting up is opened for a command.
    #[verifier::opaque]
    pub open spec fn opening(self, o: Opening, attached: bool) -> Out {
        if self.pending && self.mutation {
            done(
                UiView {
                    active: true,
                    title: "Setup save in progress"@,
                    status: "Waiting for the independent result; Ctrl+C closes."@,
                    ..self
                },
            )
        } else {
            let v = UiView {
                active: true,
                pending: false,
                integration: None,
                effort_selection: None,
                prefix: match o {
                    Opening::Models => Some("/model "@),
                    Opening::Effort => Some("/effort "@),
                    _ => None,
                },
                save_default: false,
                followup: true,
                attempt: slash_ui::bumped(self.attempt),
                back: seq![],
                credential: None,
                existing: false,
                editing_connection: false,
                declare_effort: false,
                attached,
                definition: None,
                candidate: None,
                secret: seq![],
                editor: EditorView::blank(),
                selected: 0,
                stage: StageView::Menu(seq![]),
                title: "Model setup"@,
                ..self
            };
            if !v.feature {
                done(
                    UiView {
                        status:
                            "This application profile does not provide model setup. Use the built-in rsi tui profile."@,
                        ..v
                    },
                )
            } else {
                asking(
                    UiView {
                        status: "Loading configuration…"@,
                        pending: true,
                        mutation: false,
                        ..v
                    },
                    OperationView::Open(o),
                )
            }
        }
    }

    /// The connection of a deployment is edited.
    #[verifier::opaque]
    pub open spec fn connecting(self) -> Out {
        let v = UiView { editing_connection: true, ..self };
        match v.definition {
            None => failing(v, "Choose provider"@),
            Some(d) => done(
                v.field(
                    "Deployment name"@,
                    Field::Name,
                    if d.deployment is Some {
                        d.deployment->0
                    } else {
                        seq![]
                    },
                ),
            ),
        }
    }

    /// What a choice leads to, once it is settled whether the default is saved.
    #[verifier::opaque]
    pub open spec fn following(self, choice: ChoiceView, r: RulingsView) -> Out {
        match choice {
            ChoiceView::Provider(p) => self.logging_in(p, r),
            ChoiceView::New(p) => self.starting(p, r),
            ChoiceView::DiscoverExisting(d) => done(
                UiView { existing: true, definition: Some(d), ..self }.discovered(seq![]),
            ),
            ChoiceView::Existing(d) => UiView {
                definition: Some(d),
                existing: true,
                ..self
            }.credentials(r),
            ChoiceView::Login => self.opening(Opening::Login(None), self.attached),
            ChoiceView::Refresh => self.opening(Opening::Models, self.attached),
            ChoiceView::Discover => self.discovering(r),
            ChoiceView::Credentials => self.credentials(r),
            ChoiceView::Connection => self.connecting(),
            ChoiceView::Manual => done(
                UiView { declare_effort: true, ..self }.field(
                    "Exact model ID"@,
                    Field::Model,
                    seq![],
                ),
            ),
            ChoiceView::Candidate(c) => self.proposing(c, r),
            ChoiceView::Route(m) => self.describing(m),
            ChoiceView::Effort(s) => self.selecting(s),
            ChoiceView::EffortDefault(e) => self.defaulting(e, r),
        }
    }

    /// What a choice leads to.
    #[verifier::opaque]
    pub open spec fn choosing(self, choice: ChoiceView, default: bool, r: RulingsView) -> Out {
        UiView { save_default: self.saving(choice, default), ..self }.following(choice, r)
    }

    /// What entering the efforts of a model leads to.
    #[verifier::opaque]
    pub open spec fn entered_efforts(self, value: Seq<char>, r: RulingsView) -> Out {
        if value.len() == 0 {
            self.saved_declared(r)
        } else {
            match r.value {
                Some(problem) => failing(self, problem),
                None => match self.candidate {
                    None => failing(self, "Choose model"@),
                    Some(c) => match self.definition {
                        None => failing(self, "Choose provider"@),
                        Some(d) => {
                            let ids = listed_ids(value);
                            done(
                                UiView {
                                    definition: Some(
                                        d.with_effort(
                                            EffortView { id: c.id, supported: ids, default: None },
                                        ),
                                    ),
                                    ..self
                                }.menu(
                                    "Declared default effort"@,
                                    seq![("Default unknown"@, ChoiceView::EffortDefault(None))]
                                        + Seq::new(
                                        ids.len(),
                                        |i: int|
                                            (ids[i], ChoiceView::EffortDefault(Some(ids[i]))),
                                    ),
                                ),
                            )
                        },
                    },
                },
            }
        }
    }

    /// What entering the name of a deployment leads to.
    #[verifier::opaque]
    pub open spec fn entered_name(self, value: Seq<char>, r: RulingsView) -> Out {
        let current = if self.definition is Some && self.definition->0.deployment is Some {
            self.definition->0.deployment->0
        } else {
            seq![]
        };
        match r.value {
            Some(problem) => failing(self, problem),
            None => if self.name_exists(value) && !(self.existing && value == current) {
                failing(self, "Deployment name already exists; enter a different name"@)
            } else {
                self.naming(value, r)
            },
        }
    }

    /// What entering the endpoint of a deployment leads to.
    #[verifier::opaque]
    pub open spec fn entered_endpoint(self, value: Seq<char>, r: RulingsView) -> Out {
        match self.definition {
            None => failing(self, "Choose provider"@),
            Some(d) => match r.request {
                Some(problem) => failing(self, problem),
                None => UiView {
                    definition: Some(DefinitionView { endpoint: Some(value), ..d }),
                    ..self
                }.credentials(r),
            },
        }
    }

    /// What entering a size leads to.
    #[verifier::opaque]
    pub open spec fn entered_size(self, field: Field, value: Seq<char>, r: RulingsView) -> Out {
        match number::parsed_within(value, u32::MAX as nat) {
            None => failing(self, "Enter a positive 32-bit integer"@),
            Some(n) => if n == 0 {
                failing(self, "Enter a positive 32-bit integer"@)
            } else {
                match self.candidate {
                    None => failing(self, "Choose model"@),
                    Some(c) => if field is Context {
                        if n < 2 {
                            failing(
                                self,
                                "Context must be at least 2 tokens and greater than output"@,
                            )
                        } else {
                            done(
                                UiView {
                                    candidate: Some(
                                        CandidateView { context: Some(n as u32), ..c },
                                    ),
                                    ..self
                                }.output_field(
                                    match c.output {
                                        Some(output) => number::digits(output as nat),
                                        None => seq![],
                                    },
                                ),
                            )
                        }
                    } else {
                        match c.context {
                            None => failing(self, "Enter context window first"@),
                            Some(_) => match r.limits {
                                Some(problem) => failing(self, problem),
                                None => UiView {
                                    candidate: Some(
                                        CandidateView { output: Some(n as u32), ..c },
                                    ),
                                    ..self
                                }.limiting(r),
                            },
                        }
                    },
                }
            },
        }
    }

    /// What entering a line of text leads to.
    #[verifier::opaque]
    pub open spec fn entered(self, field: Field, r: RulingsView) -> Out {
        let value = text::trimmed(self.editor.text);
        match field {
            Field::Efforts => self.entered_efforts(value, r),
            Field::Name => self.entered_name(value, r),
            Field::Endpoint => self.entered_endpoint(value, r),
            Field::Model => match r.value {
                Some(problem) => failing(self, problem),
                None => self.choosing(
                    ChoiceView::Candidate(
                        CandidateView { id: value, context: None, output: None },
                    ),
                    self.save_default,
                    r,
                ),
            },
            Field::Context => self.entered_size(Field::Context, value, r),
            Field::Output => self.entered_size(Field::Output, value, r),
        }
    }

    /// Whether the place of the keys cannot be used.
    pub open spec fn unavailable(self) -> bool {
        self.credential matches Some(c) && c.availability is Unavailable
    }

    /// What entering the key of an integration leads to.
    #[verifier::opaque]
    pub open spec fn entered_integration(self, r: RulingsView) -> Out {
        if self.integration is None {
            failing(self, "Integration credential screen is unavailable"@)
        } else if !(self.credential matches Some(c) && c.editable) {
            failing(self, "Read an editable credential status before saving"@)
        } else {
            let v = UiView { secret: seq![], ..self };
            if !r.secret {
                failing(v, "Enter a nonempty API key within 64 KiB"@)
            } else {
                asking(
                    UiView {
                        pending: true,
                        mutation: true,
                        status: "Saving credential…"@,
                        ..v
                    },
                    OperationView::SetIntegration(self.secret),
                )
            }
        }
    }

    /// What entering a key leads to. An empty one reuses a key that there is.
    #[verifier::opaque]
    pub open spec fn entered_secret(self, r: RulingsView) -> Out {
        if self.integration is Some {
            self.entered_integration(r)
        } else if self.unavailable() {
            self.credentials(r)
        } else if self.secret.len() == 0 {
            if !(self.credential matches Some(c) && c.availability is Configured) {
                failing(
                    self,
                    "No available credential. Enter a key or edit connection settings (Ctrl+E)."@,
                )
            } else {
                self.discovering(r)
            }
        } else {
            match self.request(r) {
                Err(problem) => failing(self, problem),
                Ok(request) => {
                    let v = UiView { secret: seq![], ..self };
                    if !r.secret {
                        failing(v, "Invalid API key"@)
                    } else if !v.feature {
                        failing(v, "Setup unavailable"@)
                    } else {
                        asking(
                            UiView {
                                pending: true,
                                mutation: true,
                                status: "Saving credential…"@,
                                ..v
                            },
                            OperationView::CredentialSet {
                                provider: request.provider,
                                slot: request.slot,
                                secret: self.secret,
                            },
                        )
                    }
                },
            }
        }
    }

    /// A key grows, unless it is read only, too long or not a single line.
    #[verifier::opaque]
    pub open spec fn typed(self, value: Seq<char>) -> Out {
        if self.integration is Some && !(self.credential matches Some(c) && c.editable) {
            failing(self, "Read an editable credential status before entering a key"@)
        } else if self.credential matches Some(c) && !c.editable {
            failing(
                self,
                "Credential is read only; edit its environment source or connection settings."@,
            )
        } else if text::size(self.secret) + text::size(value) > SECRET_BYTES || controlled(value) {
            failing(self, "API key must be a single line, at most 64 KiB"@)
        } else {
            done(UiView { secret: self.secret + value, ..self })
        }
    }

    /// Nothing is known of what was being set up.
    pub open spec fn reconciled(self) -> UiView {
        UiView { back: seq![], definition: None, candidate: None, credential: None, ..self }
    }

    /// What can be gone back to.
    pub open spec fn screen(self) -> ScreenView {
        ScreenView {
            prefix: self.prefix,
            declare_effort: self.declare_effort,
            stage: self.stage,
            title: self.title,
            editor: self.editor,
            selected: self.selected,
            candidate: self.candidate,
            definition: self.definition,
            existing: self.existing,
            editing_connection: self.editing_connection,
        }
    }

    /// Setting up is closed. A change that is being made goes on, and nothing follows it.
    pub open spec fn closed(self) -> UiView {
        UiView {
            followup: false,
            chosen: None,
            status: if self.mutation && self.pending {
                self.status
            } else {
                seq![]
            },
            pending: self.pending && self.mutation,
            secret: seq![],
            editor: EditorView::blank(),
            back: seq![],
            active: false,
            ..self
        }
    }

    /// The screen before, without what was read for this one.
    pub open spec fn restored(self, s: ScreenView) -> UiView {
        UiView {
            prefix: s.prefix,
            menu_revision: slash_ui::bumped(self.menu_revision),
            declare_effort: s.declare_effort,
            stage: s.stage,
            title: s.title,
            editor: s.editor,
            selected: s.selected,
            candidate: s.candidate,
            definition: s.definition,
            existing: s.existing,
            editing_connection: s.editing_connection,
            credential: None,
            ..self
        }
    }

    /// One screen back.
    #[verifier::opaque]
    pub open spec fn backed(self, r: RulingsView) -> Out {
        if self.integration is Some || (self.mutation && self.pending) {
            done(self.closed())
        } else {
            let v = UiView { pending: false, secret: seq![], status: seq![], ..self };
            if v.back.len() == 0 {
                done(v.closed())
            } else {
                let w = UiView { back: v.back.drop_last(), ..v }.restored(v.back.last());
                if w.stage is Secret {
                    let o = w.credentials(r);
                    match o.problem {
                        Some(problem) => done(UiView { status: problem, ..o.ui }),
                        None => o,
                    }
                } else {
                    done(w)
                }
            }
        }
    }

    /// The entries of the menu, if there is one.
    pub open spec fn items(self) -> Seq<(Seq<char>, ChoiceView)> {
        match self.stage {
            StageView::Menu(items) => items,
            _ => seq![],
        }
    }

    /// The indices of the entries that the filter leaves.
    #[verifier::opaque]
    pub open spec fn indices(self) -> Seq<usize> {
        filtered(self.items(), self.editor.text, self.items().len() as int)
    }

    /// The entry that is selected.
    #[verifier::opaque]
    pub open spec fn picked(self) -> Option<(Seq<char>, ChoiceView)> {
        if self.selected < self.indices().len() {
            Some(self.items()[self.indices()[self.selected as int] as int])
        } else {
            None
        }
    }

    /// The key and what a step leads to, once the screen before it is remembered.
    #[verifier::opaque]
    pub open spec fn finished(
        o: Out,
        screen: Option<ScreenView>,
        w: UiView,
        op: Option<OperationView>,
    ) -> bool {
        match o.problem {
            Some(problem) => w == (UiView { status: problem, ..o.ui }) && op is None,
            None => {
                &&& op == o.op
                &&& w == (if screen is Some && o.ui.back.len() < BACK_SCREENS {
                    UiView { back: o.ui.back.push(screen->0), ..o.ui }
                } else {
                    o.ui
                })
            },
        }
    }

    /// What a key that the line of text takes leads to.
    #[verifier::opaque]
    pub open spec fn edited_by(
        self,
        key: KeyEvent,
        screen: Option<ScreenView>,
        w: UiView,
        op: Option<OperationView>,
    ) -> bool {
        exists|e: EditorView, r: Result<(), &'static str>| #[trigger]
            editor::pressed(self.editor, key, r, e) && UiView::finished(
                match r {
                    Ok(_) => done(UiView { editor: e, ..self }),
                    Err(problem) => failing(UiView { editor: e, ..self }, problem@),
                },
                screen,
                w,
                op,
            )
    }

    /// What filling the label of an entry in leads to.
    #[verifier::opaque]
    pub open spec fn filled_by(
        self,
        label: Seq<char>,
        screen: Option<ScreenView>,
        w: UiView,
        op: Option<OperationView>,
    ) -> bool {
        exists|e: EditorView, r: Result<(), &'static str>| #[trigger]
            editor::replaced(self.editor, label, r, e) && UiView::finished(
                match r {
                    Ok(_) => done(UiView { editor: e, ..self }),
                    Err(problem) => failing(UiView { editor: e, ..self }, problem@),
                },
                screen,
                w,
                op,
            )
    }

    /// Whether a key goes on to the next screen.
    pub open spec fn advances(self, key: KeyEvent) -> bool {
        ||| key.code is Enter
        ||| key.code is Tab && (self.picked() matches Some(p) && p.1 is Route)
        ||| key.control && (key.code == KeyCode::Char('s') || key.code == KeyCode::Char('S'))
    }

    /// What the tab key does in a menu: it goes on with a model, and fills in anything else.
    #[verifier::opaque]
    pub open spec fn tabbed(
        self,
        r: RulingsView,
        screen: Option<ScreenView>,
        w: UiView,
        op: Option<OperationView>,
    ) -> bool {
        match self.picked() {
            Some((label, choice)) => if choice is Route {
                UiView::finished(self.choosing(choice, false, r), screen, w, op)
            } else {
                UiView { selected: 0, ..self }.filled_by(label, screen, w, op)
            },
            None => UiView::finished(done(self), screen, w, op),
        }
    }

    /// The selected entry of a menu is chosen.
    #[verifier::opaque]
    pub open spec fn accepted(
        self,
        default: bool,
        r: RulingsView,
        screen: Option<ScreenView>,
        w: UiView,
        op: Option<OperationView>,
    ) -> bool {
        match self.picked() {
            Some((_, choice)) => UiView::finished(
                self.choosing(choice, default, r),
                screen,
                w,
                op,
            ),
            None => UiView::finished(done(self), screen, w, op),
        }
    }

    /// What a key does in a menu.
    #[verifier::opaque]
    pub open spec fn menu_keyed(
        self,
        key: KeyEvent,
        r: RulingsView,
        screen: Option<ScreenView>,
        w: UiView,
        op: Option<OperationView>,
    ) -> bool {
        if key.code is Tab {
            self.tabbed(r, screen, w, op)
        } else if key.code is Up {
            UiView::finished(
                done(UiView { selected: scene::step_up(self.selected as int) as usize, ..self }),
                screen,
                w,
                op,
            )
        } else if key.code is Down {
            UiView::finished(
                done(
                    UiView {
                        selected: scene::step_down(
                            self.selected as int,
                            self.indices().len() as int,
                        ) as usize,
                        ..self
                    },
                ),
                screen,
                w,
                op,
            )
        } else if key.code is Enter || (key.control && (key.code == KeyCode::Char('s') || key.code
            == KeyCode::Char('S'))) {
            self.accepted(key.control, r, screen, w, op)
        } else {
            UiView { selected: 0, ..self }.edited_by(key, screen, w, op)
        }
    }

    /// What a key does to the key that is entered.
    #[verifier::opaque]
    pub open spec fn secret_keyed(self, key: KeyEvent, r: RulingsView) -> Out {
        match key.code {
            KeyCode::Enter => self.entered_secret(r),
            KeyCode::Backspace => done(
                UiView {
                    secret: if self.secret.len() > 0 {
                        self.secret.drop_last()
                    } else {
                        self.secret
                    },
                    ..self
                },
            ),
            KeyCode::Char(c) => if key.control {
                if c == 'u' || c == 'U' {
                    done(UiView { secret: seq![], ..self })
                } else {
                    done(self)
                }
            } else if text::control(c) {
                done(self)
            } else {
                self.typed(seq![c])
            },
            _ => done(self),
        }
    }

    /// What a key does.
    #[verifier::opaque]
    pub open spec fn keyed(
        self,
        key: KeyEvent,
        r: RulingsView,
        w: UiView,
        op: Option<OperationView>,
    ) -> bool {
        if key.control && key.code == KeyCode::Char('c') {
            w == self.closed() && op is None
        } else if key.code is Escape {
            w == self.backed(r).ui && op == self.backed(r).op
        } else if self.pending {
            w == self && op is None
        } else if key.control && key.code == KeyCode::Char('e') && self.definition is Some {
            UiView::finished(
                UiView { secret: seq![], ..self }.choosing(ChoiceView::Connection, false, r),
                Some(self.screen()),
                w,
                op,
            )
        } else {
            let advance = self.advances(key);
            let screen = if advance && !(self.stage is Secret && self.unavailable()) {
                Some(self.screen())
            } else {
                None
            };
            let v = if advance {
                self
            } else {
                UiView { status: seq![], ..self }
            };
            v.stage_keyed(key, r, screen, w, op)
        }
    }

    /// What a key does to what the screen asks for.
    #[verifier::opaque]
    pub open spec fn stage_keyed(
        self,
        key: KeyEvent,
        r: RulingsView,
        screen: Option<ScreenView>,
        w: UiView,
        op: Option<OperationView>,
    ) -> bool {
        match self.stage {
            StageView::Menu(_) => self.menu_keyed(key, r, screen, w, op),
            StageView::Text(field) => if key.code is Enter {
                UiView::finished(self.entered(field, r), screen, w, op)
            } else {
                self.edited_by(key, screen, w, op)
            },
            StageView::Secret => UiView::finished(self.secret_keyed(key, r), screen, w, op),
        }
    }

    /// What a pasted text does.
    #[verifier::opaque]
    pub open spec fn pasted(self, s: Seq<char>, w: UiView) -> bool {
        let v = UiView { status: seq![], selected: 0, ..self };
        if self.pending {
            w == (UiView {
                status:
                    "Paste ignored while an operation is pending; wait for completion before entering text."@,
                ..self
            })
        } else if self.stage is Secret {
            match v.typed(text::trimmed(s)).problem {
                Some(problem) => w == (UiView {
                    status: problem,
                    ..v.typed(text::trimmed(s)).ui
                }),
                None => w == v.typed(text::trimmed(s)).ui,
            }
        } else {
            v.inserted_by(s, w)
        }
    }

    /// What inserting a text in the line of text leads to.
    #[verifier::opaque]
    pub open spec fn inserted_by(self, s: Seq<char>, w: UiView) -> bool {
        exists|e: EditorView, r: Result<(), &'static str>| #[trigger]
            editor::inserted(self.editor, s, r, e) && w == (match r {
                Ok(_) => UiView { editor: e, ..self },
                Err(problem) => UiView { editor: e, status: problem@, ..self },
            })
    }

    /// What is left to say once setting up is closed.
    pub open spec fn notice(self) -> Seq<char> {
        if self.pending && self.mutation {
            "Save pending; reopen setup to observe."@
        } else if !self.followup {
            self.status
        } else {
            seq![]
        }
    }

    /// The index of the first entry that a screen shows.
    pub open spec fn window(self) -> int {
        let before = if self.selected > 128 {
            self.selected - 128
        } else {
            0
        };
        let last = if self.indices().len() > 256 {
            self.indices().len() - 256
        } else {
            0
        };
        if before < last {
            before
        } else {
            last
        }
    }

    /// What the pointer does. A menu that is no longer shown is not acted on.
    #[verifier::opaque]
    pub open spec fn pointed(self, mouse: MouseEvent, view: Shown, revision: u64) -> UiView {
        let len = self.indices().len() as int;
        if self.pending || !(self.stage is Menu) || view.choice_revision != revision
            || !view.choices_area.covers(mouse.column as int, mouse.row as int) {
            self
        } else {
            match mouse.kind {
                MouseKind::ScrollUp => UiView {
                    selected: scene::step_up(self.selected as int) as usize,
                    ..self
                },
                MouseKind::ScrollDown => UiView {
                    selected: scene::step_down(self.selected as int, len) as usize,
                    ..self
                },
                MouseKind::LeftDown => match view.choice(mouse.column as int, mouse.row as int) {
                    Some(index) => UiView {
                        selected: (if self.window() + index < len {
                            self.window() + index
                        } else if len > 0 {
                            len - 1
                        } else {
                            0
                        }) as usize,
                        ..self
                    },
                    None => self,
                },
                _ => self,
            }
        }
    }

    /// A fresh state.
    pub open spec fn fresh(feature: bool) -> UiView {
        UiView {
            prefix: None,
            declare_effort: false,
            feature,
            integration: None,
            active: false,
            attached: false,
            stage: StageView::Menu(seq![]),
            title: seq![],
            status: seq![],
            selected: 0,
            editor: EditorView::blank(),
            secret: seq![],
            view: SnapshotView::blank(),
            deployments: seq![],
            definition: None,
            candidate: None,
            save_default: false,
            effort_selection: None,
            pending: false,
            mutation: false,
            followup: true,
            attempt: 0,
            menu_revision: 0,
            back: seq![],
            credential: None,
            existing: false,
            editing_connection: false,
            chosen: None,
        }
    }

    /// The key of an integration is looked at.
    #[verifier::opaque]
    pub open spec fn integrating(self, target: IntegrationView) -> Out {
        if self.pending && self.mutation {
            done(
                UiView {
                    active: true,
                    status: "Waiting for the current credential result"@,
                    ..self
                },
            )
        } else {
            asking(
                UiView {
                    pending: true,
                    secret: seq![],
                    editor: EditorView::blank(),
                    back: seq![],
                    definition: None,
                    candidate: None,
                    active: true,
                    attached: true,
                    followup: true,
                    mutation: false,
                    prefix: None,
                    view: SnapshotView::blank(),
                    title: target.title(),
                    status: "Reading current credential status…"@,
                    stage: StageView::Secret,
                    credential: None,
                    integration: Some(target),
                    ..self
                },
                OperationView::ReadIntegration,
            )
        }
    }

    /// What comes back for the key of an integration.
    #[verifier::opaque]
    pub open spec fn integrated(self, reply: Result<UpdateView, Seq<char>>) -> UiView {
        let v = UiView { pending: false, mutation: false, ..self };
        match reply {
            Ok(UpdateView::IntegrationCredential { status, saved }) => UiView {
                credential: status,
                status: if saved {
                    self.integration->0.saved()
                } else {
                    "Enter a key and press Enter to save. Esc returns to Plugins."@
                },
                ..v
            },
            Err(problem) => UiView {
                credential: None,
                status: "Credential: "@ + problem
                    + ". Close and reopen this screen to reconcile before another write."@,
                ..v
            },
            Ok(_) => UiView {
                status: "Credential response changed; close and reopen this screen"@,
                ..v
            },
        }
    }

    /// The one way on after something went wrong.
    pub open spec fn refreshing() -> Seq<(Seq<char>, ChoiceView)> {
        seq![("Refresh configuration…"@, ChoiceView::Refresh)]
    }

    /// What comes back after setting up was closed: it is told, and nothing follows it.
    #[verifier::opaque]
    pub open spec fn settled(self, reply: Result<UpdateView, Seq<char>>) -> UiView {
        let status = match reply {
            Ok(_) =>
                "Setup operation completed. Refresh to continue; no follow-up was started."@,
            Err(problem) => "Setup operation: "@ + problem + ". Refresh before another write."@,
        };
        let v = UiView { status, ..self.reconciled() };
        if v.active {
            UiView { status, ..v.menu("Setup result"@, UiView::refreshing()) }
        } else {
            v
        }
    }

    /// What a failed operation leads to.
    #[verifier::opaque]
    pub open spec fn failed(self, was_mutation: bool, problem: Seq<char>) -> UiView {
        let v = if was_mutation {
            self.reconciled().menu("Setup write requires reconciliation"@, UiView::refreshing())
        } else if self.definition is Some {
            self.discovered(seq![])
        } else {
            self.menu("Setup unavailable"@, UiView::refreshing())
        };
        UiView { status: problem + ". Esc back · Ctrl+C close"@, prefix: self.prefix, ..v }
    }

    /// The menu of configured models, and of the deployments to look in.
    #[verifier::opaque]
    pub open spec fn routed(self, routes: Seq<ModelRefView>) -> UiView {
        let providers = if self.view.providers is Some {
            self.view.providers->0
        } else {
            seq![]
        };
        UiView {
            prefix: Some("/model "@),
            ..self.menu(
                if self.attached {
                    "Model for next request"@
                } else {
                    "Set default and start"@
                },
                UiView::route_entries(routes) + UiView::provider_entries(providers).push(
                    ("Log in / add provider…"@, ChoiceView::Login),
                ),
            )
        }
    }

    /// The configured models, as choices.
    pub open spec fn route_entries(routes: Seq<ModelRefView>) -> Seq<(Seq<char>, ChoiceView)> {
        Seq::new(
            routes.len(),
            |i: int|
                (
                    routes[i].deployment + "/"@ + routes[i].model,
                    ChoiceView::Route(routes[i]),
                ),
        )
    }

    /// The deployments to look for models in, as choices.
    pub open spec fn provider_entries(providers: Seq<DefinitionView>) -> Seq<
        (Seq<char>, ChoiceView),
    > {
        Seq::new(
            providers.len(),
            |i: int|
                (
                    "Discover / refresh · "@ + (if providers[i].deployment is Some {
                        providers[i].deployment->0
                    } else {
                        "provider"@
                    }),
                    ChoiceView::DiscoverExisting(providers[i]),
                ),
        )
    }

    /// The providers to log in to, as choices.
    pub open spec fn provider_choices() -> Seq<(Seq<char>, ChoiceView)> {
        seq![
            ("DeepSeek"@, ChoiceView::Provider(ProviderKind::Deepseek)),
            ("OpenAI"@, ChoiceView::Provider(ProviderKind::Openai)),
            ("OpenAI-compatible"@, ChoiceView::Provider(ProviderKind::OpenaiCompatible)),
        ]
    }

    /// The names of the configured deployments are known.
    pub open spec fn noted(self, routes: Seq<ModelRefView>) -> UiView {
        UiView {
            deployments: Seq::new(routes.len(), |i: int| routes[i].deployment),
            status: if self.view.allowed {
                "Enter selects · Esc cancels"@
            } else {
                "Configuration access is read only"@
            },
            ..self
        }
    }

    /// What a read configuration leads to.
    #[verifier::opaque]
    pub open spec fn opened(self, o: Opening, routes: Seq<ModelRefView>, r: RulingsView) -> Out {
        let v = self.noted(routes);
        match o {
            Opening::Login(Some(provider)) => v.logging_in(provider, r),
            Opening::Login(None) => done(
                v.menu("Log in · choose provider"@, UiView::provider_choices()),
            ),
            Opening::Effort => match v.effort_selection {
                Some(s) => v.describing(s.model),
                None => done(UiView { status: "Choose a model with /model first"@, ..v }),
            },
            Opening::Models => done(v.routed(routes)),
            Opening::Other => done(
                UiView {
                    status:
                        "Usage: /login [deepseek|openai|openai-compatible] or /model. Enter keys only in the masked field."@,
                    ..v
                },
            ),
        }
    }

    /// The status of the key of the deployment that is set up, if that is the one looked at.
    pub open spec fn matching_credential(self) -> Option<CredentialView> {
        match self.view.credential {
            Some((provider, slot, status)) => if self.definition is Some && provider
                == self.definition->0.provider && self.definition->0.slot == Some(slot) {
                Some(status)
            } else {
                None
            },
            None => None,
        }
    }

    /// The choices of efforts for a model.
    pub open spec fn effort_choices(
        model: ModelRefView,
        supported: Seq<Seq<char>>,
        default: Option<Seq<char>>,
    ) -> Seq<(Seq<char>, ChoiceView)> {
        seq![
            (
                match default {
                    Some(e) => "Provider default ("@ + e + ")"@,
                    None => "Provider default"@,
                },
                ChoiceView::Effort(SelectionView { model, effort: None }),
            ),
        ] + Seq::new(
            supported.len(),
            |i: int|
                (
                    supported[i],
                    ChoiceView::Effort(SelectionView { model, effort: Some(supported[i]) }),
                ),
        )
    }

    /// The first of the first `n` choices that is a selection, or zero.
    pub open spec fn position(
        choices: Seq<(Seq<char>, ChoiceView)>,
        selection: SelectionView,
        n: int,
    ) -> Option<int>
        decreases n,
    {
        if n <= 0 {
            None
        } else {
            match UiView::position(choices, selection, n - 1) {
                Some(i) => Some(i),
                None => if choices[n - 1].1 == ChoiceView::Effort(selection) {
                    Some(n - 1)
                } else {
                    None
                },
            }
        }
    }

    /// The menu of efforts for a model, with the current one selected.
    #[verifier::opaque]
    pub open spec fn effort_menu(
        self,
        model: ModelRefView,
        supported: Seq<Seq<char>>,
        default: Option<Seq<char>>,
    ) -> UiView {
        let choices = UiView::effort_choices(model, supported, default);
        UiView {
            prefix: Some(
                if self.effort_selection is Some {
                    "/effort "@
                } else {
                    "/model "@ + model.model + " "@
                },
            ),
            selected: match self.effort_selection {
                Some(s) => match UiView::position(choices, s, choices.len() as int) {
                    Some(i) => i as usize,
                    None => 0,
                },
                None => 0,
            },
            ..self.menu("Reasoning effort"@, choices)
        }
    }

    /// What comes back from an operation.
    #[verifier::opaque]
    pub open spec fn replied(
        self,
        reply: Result<UpdateView, Seq<char>>,
        snapshot: SnapshotView,
        r: RulingsView,
    ) -> Out {
        if self.integration is Some {
            done(self.integrated(reply))
        } else {
            let v = UiView {
                pending: false,
                mutation: false,
                view: if self.feature {
                    snapshot
                } else {
                    self.view
                },
                ..self
            };
            if !v.followup {
                done(v.settled(reply))
            } else {
                match reply {
                    Err(problem) => done(v.failed(self.mutation, problem)),
                    Ok(update) => v.updated(update, r),
                }
            }
        }
    }

    /// The screen that asks for the key, once it is known whether there is one.
    #[verifier::opaque]
    pub open spec fn credential_screen(self) -> UiView {
        UiView {
            credential: self.matching_credential(),
            status: seq![],
            stage: StageView::Secret,
            prefix: None,
            title: "API key · masked"@,
            editor: EditorView::blank(),
            ..self
        }
    }

    /// A key was saved.
    pub open spec fn credential_noted(self) -> UiView {
        UiView {
            credential: match self.view.credential {
                Some((_, _, status)) => Some(status),
                None => None,
            },
            status: seq![],
            ..self
        }
    }

    /// What an operation that was done leads to.
    #[verifier::opaque]
    pub open spec fn updated(self, update: UpdateView, r: RulingsView) -> Out {
        match update {
            UpdateView::IntegrationCredential { .. } => done(
                UiView {
                    status: "Integration credential screen is no longer active"@,
                    ..self
                },
            ),
            UpdateView::Open(o, routes) => self.opened(o, routes, r),
            UpdateView::CredentialStatus => done(self.credential_screen()),
            UpdateView::Credential => self.credential_noted().discovering(r),
            UpdateView::Discovered(models) => done(self.discovered(models)),
            UpdateView::Saved(model) => self.describing(model),
            UpdateView::Efforts { model, supported, default } => done(
                self.effort_menu(model, supported, default),
            ),
            UpdateView::Selected(s) => done(
                UiView { active: false, chosen: Some(s), status: seq![], ..self },
            ),
        }
    }

    /// What the screen says of a key.
    pub open spec fn credential_text(self) -> Seq<char> {
        match self.credential {
            None => "Checking credential…"@,
            Some(c) => {
                let s = match c.availability {
                    AvailabilityView::Missing => "Missing credential · enter key"@,
                    AvailabilityView::Unavailable { failure, reason } => reason + ".\n"@ + (
                    match failure {
                        StoreFailure::Permissions =>
                            "Check ownership; the directory needs mode 0700 and the file needs 0600."@,
                        StoreFailure::Corrupt =>
                            "Repair the credential JSON; the original file has been preserved."@,
                        StoreFailure::UnsafePath =>
                            "Use an owned directory and regular file without links."@,
                        StoreFailure::Other =>
                            "Resolve the file problem before saving or using this credential."@,
                    }) + "\nEnter retries; Esc returns."@,
                    AvailabilityView::Configured { variable } => if variable is Some {
                        "Environment key · Enter reuses; typing saves a replacement"@
                    } else if c.editable {
                        "Saved key · Enter reuses; typing replaces"@
                    } else {
                        "Saved key · Enter reuses (read only)"@
                    },
                };
                match c.store_path {
                    Some(path) => s + "\nSaves on Host: "@ + path,
                    None => s,
                }
            },
        }
    }

    /// What the screen says of the key of an integration.
    pub open spec fn integration_text(self) -> Seq<char> {
        match self.credential {
            Some(c) => if c.editable {
                (if c.availability is Configured {
                    "Credential configured"@
                } else {
                    "Credential missing"@
                }) + " · enter a nonempty key to save; tool settings are separate"@
            } else {
                "Credential is read only or unavailable; close and reopen to refresh status"@
            },
            None => if self.pending {
                "Reading or saving the selected credential…"@
            } else {
                "Credential status needs an explicit refresh; close and reopen this screen"@
            },
        }
    }

    /// The labels that a screen shows.
    pub open spec fn shown_items(self) -> Seq<Seq<char>> {
        let len = self.indices().len() - self.window();
        Seq::new(
            (if len < 256 {
                len
            } else {
                256
            }) as nat,
            |i: int| self.items()[self.indices()[self.window() + i] as int].0,
        )
    }

    /// The title that a screen shows.
    pub open spec fn shown_title(self) -> Seq<char> {
        if self.prefix is Some {
            if self.indices().len() > 8 {
                self.title + " · "@ + number::digits((self.selected + 1) as nat) + "/"@
                    + number::digits(self.indices().len())
            } else {
                self.title + " · "@ + number::digits(self.indices().len())
            }
        } else {
            self.title
        }
    }

    /// What a screen says of the deployment.
    pub open spec fn shown_explanation(self) -> Seq<char> {
        let summary = match self.definition {
            Some(d) => (if d.deployment is Some {
                d.deployment->0
            } else {
                seq![]
            }) + " · "@ + (if d.endpoint is Some {
                d.endpoint->0
            } else {
                seq![]
            }),
            None => seq![],
        };
        match self.credential {
            Some(c) => match c.availability {
                AvailabilityView::Configured { variable: Some(variable) } => summary + " · "@
                    + variable,
                _ => summary,
            },
            None => summary,
        }
    }

    pub open spec fn shown_field(self) -> Option<Seq<char>> {
        match self.stage {
            StageView::Secret => if self.credential matches Some(c) && c.editable {
                Some("API key"@)
            } else {
                None
            },
            StageView::Menu(_) => Some("Filter choices"@),
            StageView::Text(_) => Some(seq![]),
        }
    }

    /// The line of text that a screen shows, with a key masked.
    pub open spec fn shown_input(self) -> DraftView {
        if self.stage is Secret {
            DraftView {
                text: if self.secret.len() == 0 {
                    seq![]
                } else {
                    "••••••••"@
                },
                cursor: if self.secret.len() == 0 {
                    0
                } else {
                    24
                },
            }
        } else {
            DraftView { text: self.editor.text, cursor: self.editor.cursor }
        }
    }

    pub open spec fn shown_hint(self) -> Seq<char> {
        match self.stage {
            StageView::Secret => if self.integration is Some {
                "Enter save · Esc returns to Plugins · Ctrl+C close"@
            } else if self.unavailable() {
                "Enter retry · Esc back · Ctrl+C close"@
            } else {
                "Enter continue · Esc back · Ctrl+E edit"@
            },
            StageView::Menu(_) => "Enter select · ^S default · Esc back"@,
            StageView::Text(_) => "Enter next · Esc back · ^C close"@,
        }
    }

    pub open spec fn shown_progress(self) -> Option<Seq<char>> {
        if self.pending {
            Some(
                (if self.mutation {
                    "Saving; Ctrl+C closes while result is retained"@
                } else {
                    "Loading…"@
                }) + " · attempt "@ + number::digits(self.attempt as nat),
            )
        } else {
            None
        }
    }

    pub open spec fn shown_receipts(self) -> Seq<Seq<char>> {
        Seq::new(
            self.view.receipts.len(),
            |i: int| self.view.receipts[i].0 + ": "@ + self.view.receipts[i].1,
        )
    }

    /// What the number of a menu is made from.
    pub open spec fn parts(self) -> PartsView {
        PartsView {
            attempt: self.attempt,
            menu: self.menu_revision,
            title: self.title,
            filter: self.editor.text,
            selected: self.selected,
        }
    }

    /// The screen. Of a key it shows only whether there is any of it.
    pub open spec fn pictured(self, revision: u64) -> SceneView {
        SceneView {
            revision,
            title: self.shown_title(),
            explanation: self.shown_explanation(),
            status: self.status,
            items: self.shown_items(),
            selected: (if self.selected > self.window() {
                self.selected - self.window()
            } else {
                0
            }) as usize,
            detail: if self.stage is Secret {
                Some(
                    if self.integration is Some {
                        self.integration_text()
                    } else {
                        self.credential_text()
                    },
                )
            } else {
                None
            },
            detail_offset: 0,
            field: self.shown_field(),
            input: self.shown_input(),
            hint: self.shown_hint(),
            progress: self.shown_progress(),
            receipts: self.shown_receipts(),
            composer_prefix: self.prefix,
        }
    }

    /// The key is a single line that is not too long, and what can be gone back to is bounded.
    pub open spec fn valid(self) -> bool {
        &&& text::size(self.secret) <= SECRET_BYTES
        &&& !controlled(self.secret)
        &&& self.back.len() <= BACK_SCREENS
        &&& self.selected < usize::MAX
        &&& forall|i: int|
            0 <= i < self.back.len() ==> (#[trigger] self.back[i]).selected < usize::MAX
    }
}

/// Setting up models and keys.
#[derive(Debug)]
pub struct Ui {
    pub prefix: Option<String>,
    pub declare_effort: bool,
    pub feature: bool,
    pub integration: Option<Integration>,
    pub active: bool,
    pub attached: bool,
    pub stage: Stage,
    pub title: String,
    pub status: String,
    pub selected: usize,
    pub editor: Editor,
    pub secret: String,
    /// The bytes that were allocated for the key before its first characters were stored.
    pub reserved: usize,
    pub view: Snapshot,
    pub deployments: Vec<String>,
    pub definition: Option<Definition>,
    pub candidate: Option<Candidate>,
    pub save_default: bool,
    pub effort_selection: Option<Selection>,
    pub pending: bool,
    pub mutation: bool,
    pub followup: bool,
    pub attempt: u64,
    pub menu_revision: u64,
    pub back: Vec<Screen>,
    pub credential: Option<CredentialStatus>,
    pub existing: bool,
    pub editing_connection: bool,
    pub chosen: Option<Selection>,
}

/// What a remembered screen says.
pub open spec fn screen_of(s: Option<Screen>) -> Option<ScreenView> {
    match s {
        Some(s) => Some(s@),
        None => None,
    }
}

/// Whether a remembered screen can be gone back to.
pub open spec fn usable_screen(s: Option<Screen>) -> bool {
    s matches Some(s) ==> s.editor.wf() && s.selected < usize::MAX
}

pub open spec fn screens_of(v: Seq<Screen>) -> Seq<ScreenView> {
    Seq::new(v.len(), |i: int| v[i]@)
}

impl View for Ui {
    type V = UiView;

    open spec fn view(&self) -> UiView {
        UiView {
            prefix: scene::optional(self.prefix),
            declare_effort: self.declare_effort,
            feature: self.feature,
            integration: match self.integration {
                Some(i) => Some(i@),
                None => None,
            },
            active: self.active,
            attached: self.attached,
            stage: self.stage@,
            title: self.title@,
            status: self.status@,
            selected: self.selected,
            editor: self.editor@,
            secret: self.secret@,
            view: self.view@,
            deployments: text::views(self.deployments@),
            definition: definition_of(self.definition),
            candidate: candidate_of(self.candidate),
            save_default: self.save_default,
            effort_selection: selection_of(self.effort_selection),
            pending: self.pending,
            mutation: self.mutation,
            followup: self.followup,
            attempt: self.attempt,
            menu_revision: self.menu_revision,
            back: screens_of(self.back@),
            credential: credential_of(self.credential),
            existing: self.existing,
            editing_connection: self.editing_connection,
            chosen: selection_of(self.chosen),
        }
    }
}

/// A state that differs in nothing that is bounded is as good as the other.
proof fn lemma_kept(a: Ui, b: Ui)
    requires
        a.wf(),
        b.editor == a.editor,
        b.secret == a.secret,
        b.reserved == a.reserved,
        b.back == a.back,
        b.selected == a.selected,
    ensures
        b.wf(),
{
    reveal(Ui::wf);
}

proof fn lemma_blank_valid()
    ensures
        text::size(Seq::<char>::empty()) == 0,
        !controlled(Seq::<char>::empty()),
{
}

fn has_control(s: &str) -> (r: bool)
    ensures
        r == controlled(s@),
{
    for c in it: s.chars()
        invariant
            it.seq() == s@,
            forall|i: int| 0 <= i < it.index() ==> !text::control(#[trigger] s@[i]),
    {
        if is_control(c) {
            proof {
                assert(text::control(s@[it.index() as int]));
            }
            return true;
        }
    }
    false
}

fn split_ids(s: &str) -> (r: Vec<String>)
    ensures
        text::views(r@) == listed_ids(s@),
{
    let v = characters(s);
    let n: usize = v.len();
    let mut out: Vec<String> = Vec::new();
    let mut from: usize = 0;
    let mut i: usize = 0;
    proof {
        assert(s@.skip(0) =~= s@);
        assert(text::views(out@) + listed_ids(s@) =~= listed_ids(s@));
    }
    while i < n
        invariant
            v@ == s@,
            n == v@.len(),
            from <= i <= n,
            forall|j: int| from <= j < i ==> v@[j] != ',',
            text::views(out@) + listed_ids(s@.skip(from as int)) == listed_ids(s@),
        decreases n - i,
    {
        if v[i] == ',' {
            let ghost rest = s@.skip(from as int);
            let ghost before = text::views(out@);
            let part = collect(v.as_slice(), from, i);
            let id = trim(part.as_str());
            proof {
                lemma_comma(rest, i - from);
                assert(rest.take(i - from) =~= part@);
                assert(rest.skip(i - from + 1) =~= s@.skip(i as int + 1));
            }
            let ghost view = id@;
            out.push(id);
            proof {
                assert(text::views(out@) =~= before.push(view));
                assert(before.push(view) + listed_ids(s@.skip(i as int + 1)) =~= before + (seq![
                    view,
                ] + listed_ids(s@.skip(i as int + 1))));
            }
            from = i + 1;
        }
        i += 1;
    }
    let ghost rest = s@.skip(from as int);
    let ghost before = text::views(out@);
    let part = collect(v.as_slice(), from, n);
    let id = trim(part.as_str());
    proof {
        lemma_comma(rest, rest.len() as int);
        assert(rest =~= part@);
    }
    let ghost view = id@;
    out.push(id);
    proof {
        assert(text::views(out@) =~= before.push(view));
        assert(before.push(view) =~= before + seq![view]);
    }
    out
}

proof fn lemma_comma(s: Seq<char>, k: int)
    requires
        0 <= k <= s.len(),
        forall|j: int| 0 <= j < k ==> s[j] != ',',
        k < s.len() ==> s[k] == ',',
    ensures
        comma_at(s) == k,
    decreases s.len(),
{
    if s.len() > 0 && k > 0 {
        assert forall|j: int| 0 <= j < k - 1 implies s.drop_first()[j] != ',' by {
            assert(s.drop_first()[j] == s[j + 1]);
        }
        lemma_comma(s.drop_first(), k - 1);
    }
}

impl Ui {
    /// What every operation keeps.
    #[verifier::opaque]
    pub open spec fn wf(&self) -> bool {
        &&& self@.valid()
        &&& self.editor.wf()
        &&& forall|i: int| 0 <= i < self.back@.len() ==> (#[trigger] self.back@[i]).editor.wf()
        &&& self@.secret.len() > 0 ==> self.reserved >= SECRET_BYTES
    }

    /// The key never exceeds its bound and is a single line, all that it may ever have was allocated
    /// before any of it was stored, and no more screens than the bound can be gone back to.
    pub proof fn law_bounds(&self)
        requires
            self.wf(),
        ensures
            text::size(self@.secret) <= SECRET_BYTES,
            !controlled(self@.secret),
            self@.secret.len() > 0 ==> self.reserved >= SECRET_BYTES,
            self@.back.len() <= BACK_SCREENS,
    {
        reveal(Ui::wf);
    }

    /// Nothing is set up yet. `feature` says whether there is a configuration to change.
    pub fn new(feature: bool) -> (r: Ui)
        ensures
            r.wf(),
            r@ == UiView::fresh(feature),
    {
        proof {
            reveal(Ui::wf);
        }
        let r = Ui {
            prefix: None,
            declare_effort: false,
            feature,
            integration: None,
            active: false,
            attached: false,
            stage: Stage::Menu(Vec::new()),
            title: String::new(),
            status: String::new(),
            selected: 0,
            editor: Editor::default(),
            secret: String::new(),
            reserved: 0,
            view: Snapshot::blank(),
            deployments: Vec::new(),
            definition: None,
            candidate: None,
            save_default: false,
            effort_selection: None,
            pending: false,
            mutation: false,
            followup: true,
            attempt: 0,
            menu_revision: 0,
            back: Vec::new(),
            credential: None,
            existing: false,
            editing_connection: false,
            chosen: None,
        };
        proof {
            lemma_blank_valid();
            assert(r.stage@->Menu_0 =~= Seq::<(Seq<char>, ChoiceView)>::empty());
            assert(r.title@ =~= Seq::<char>::empty());
            assert(r.status@ =~= Seq::<char>::empty());
            assert(r.secret@ =~= Seq::<char>::empty());
            assert(text::views(r.deployments@) =~= Seq::<Seq<char>>::empty());
            assert(screens_of(r.back@) =~= Seq::<ScreenView>::empty());
            assert(r@ == UiView::fresh(feature));
        }
        r
    }

    pub fn menu(&mut self, title: &str, items: Vec<(String, Choice)>)
        requires
            old(self).wf(),
        ensures
            final(self).wf(),
            final(self)@ == old(self)@.menu(title@, entries_of(items@)),
    {
        proof {
            reveal(Ui::wf);
        }
        let ghost v = self@;
        self.prefix = None;
        self.menu_revision = bump(self.menu_revision);
        self.status = String::new();
        self.title = title.to_owned();
        self.stage = Stage::Menu(items);
        self.selected = 0;
        self.editor = Editor::with_text(String::new(), 512);
        proof {
            assert(self.editor@.text =~= Seq::<char>::empty());
            assert(self@ == v.menu(title@, entries_of(items@)));
        }
    }

    pub fn field(&mut self, title: &str, field: Field, value: String)
        requires
            old(self).wf(),
        ensures
            final(self).wf(),
            final(self)@ == old(self)@.field(title@, field, value@),
    {
        proof {
            reveal(Ui::wf);
        }
        let ghost v = self@;
        let ghost s = value@;
        self.prefix = None;
        self.status = String::new();
        self.title = title.to_owned();
        self.stage = Stage::Text(field);
        self.editor = Editor::with_text(value, 2048);
        proof {
            assert(self@ == v.field(title@, field, s));
        }
    }

    fn request(&self, r: &Rulings) -> (q: Result<Request, String>)
        ensures
            match q {
                Ok(request) => self@.request(r@) == Ok::<RequestView, Seq<char>>(request@),
                Err(e) => self@.request(r@) == Err::<RequestView, Seq<char>>(e@),
            },
    {
        match &self.definition {
            None => Err("Choose a provider".to_owned()),
            Some(d) => match &d.endpoint {
                None => Err("Missing endpoint".to_owned()),
                Some(endpoint) => match &d.slot {
                    None => Err("Missing credential slot".to_owned()),
                    Some(slot) => match &r.request {
                        Some(problem) => Err(problem.clone()),
                        None => Ok(
                            Request {
                                provider: d.provider,
                                endpoint: endpoint.clone(),
                                slot: slot.clone(),
                            },
                        ),
                    },
                },
            },
        }
    }

    fn credentials(&mut self, r: &Rulings) -> (q: Result<Option<Operation>, String>)
        requires
            old(self).wf(),
        ensures
            final(self).wf(),
            out(final(self)@, q) == old(self)@.credentials(r@),
    {
        proof {
            reveal(Ui::wf);
        }
        proof {
            reveal(UiView::credentials);
        }
        let ghost v0 = self@;
        wipe(&mut self.secret);
        self.credential = None;
        self.status = String::new();
        let ghost v = self@;
        proof {
            lemma_blank_valid();
            assert(v == UiView { secret: seq![], credential: None, status: seq![], ..v0 });
        }
        let request = match self.request(r) {
            Ok(request) => request,
            Err(problem) => {
                return Err(problem);
            },
        };
        if !self.feature {
            return Err("Setup unavailable".to_owned());
        }
        self.stage = Stage::Secret;
        self.title = "API key · masked".to_owned();
        self.prefix = None;
        self.editor = Editor::default();
        self.pending = true;
        self.mutation = false;
        proof {
            assert(self@ == UiView {
                stage: StageView::Secret,
                title: "API key · masked"@,
                prefix: None,
                editor: EditorView::blank(),
                pending: true,
                mutation: false,
                ..v
            });
        }
        Ok(
            Some(
                Operation::CredentialStatus { provider: request.provider, slot: request.slot },
            ),
        )
    }

    fn discover(&mut self, r: &Rulings) -> (q: Option<Operation>)
        requires
            old(self).wf(),
        ensures
            final(self).wf(),
            out(final(self)@, Ok(q)) == old(self)@.discovering(r@),
    {
        proof {
            reveal(UiView::discovering);
        }
        let ghost v = self@;
        let result = self.request(r);
        if !self.feature {
            return None;
        }
        let items: Vec<(String, Choice)> = Vec::new();
        proof {
            assert(entries_of(items@) =~= Seq::<(Seq<char>, ChoiceView)>::empty());
        }
        self.menu("Discover models", items);
        let ghost u_m = *self;
        let ghost m = self@;
        self.prefix = Some("/model ".to_owned());
        self.pending = true;
        self.mutation = false;
        proof {
            lemma_kept(u_m, *self);
            assert(self@ == UiView {
                prefix: Some("/model "@),
                pending: true,
                mutation: false,
                ..m
            });
        }
        Some(
            match result {
                Ok(request) => Operation::Discover(request),
                Err(problem) => Operation::Refused(problem),
            },
        )
    }

    pub fn discovery_menu(&mut self, models: Vec<Candidate>)
        requires
            old(self).wf(),
        ensures
            final(self).wf(),
            final(self)@ == old(self)@.discovered(candidates_of(models@)),
    {
        proof {
            reveal(UiView::discovered);
        }
        let ghost v = self@;
        let ghost list = candidates_of(models@);
        let ghost head = Seq::new(
            list.len(),
            |i: int| (list[i].id, ChoiceView::Candidate(list[i])),
        );
        let mut items: Vec<(String, Choice)> = Vec::new();
        let mut i: usize = 0;
        while i < models.len()
            invariant
                i <= models@.len(),
                list == candidates_of(models@),
                head == Seq::new(
                    list.len(),
                    |i: int| (list[i].id, ChoiceView::Candidate(list[i])),
                ),
                entries_of(items@) == head.take(i as int),
            decreases models@.len() - i,
        {
            let ghost before = entries_of(items@);
            items.push((models[i].id.clone(), Choice::Candidate(models[i].clone())));
            proof {
                assert(entries_of(items@) =~= before.push(head[i as int]));
                assert(head.take(i as int + 1) =~= before.push(head[i as int]));
            }
            i += 1;
        }
        proof {
            assert(head.take(i as int) =~= head);
        }
        items.push(("Discover / refresh online…".to_owned(), Choice::Discover));
        items.push(("Enter model manually…".to_owned(), Choice::Manual));
        items.push(("Change API key…".to_owned(), Choice::Credentials));
        items.push(("Edit connection settings…".to_owned(), Choice::Connection));
        proof {
            assert(entries_of(items@) =~= head + seq![
                ("Discover / refresh online…"@, ChoiceView::Discover),
                ("Enter model manually…"@, ChoiceView::Manual),
                ("Change API key…"@, ChoiceView::Credentials),
                ("Edit connection settings…"@, ChoiceView::Connection),
            ]);
        }
        let title: &str = if self.attached {
            "Choose model"
        } else {
            "Set default and start · choose model"
        };
        self.menu(title, items);
        let ghost u_m = *self;
        let ghost m = self@;
        self.prefix = Some("/model ".to_owned());
        proof {
            lemma_kept(u_m, *self);
            assert(self@ == UiView { prefix: Some("/model "@), ..m });
        }
    }

    fn name_exists(&self, name: &str) -> (r: bool)
        ensures
            r == self@.name_exists(name@),
    {
        let mut i: usize = 0;
        while i < self.deployments.len()
            invariant
                i <= self.deployments@.len(),
                forall|j: int| 0 <= j < i ==> self@.deployments[j] != name@,
            decreases self.deployments@.len() - i,
        {
            if same(self.deployments[i].as_str(), name) {
                proof {
                    assert(self@.deployments[i as int] == name@);
                }
                return true;
            }
            proof {
                assert(self@.deployments[i as int] == self.deployments@[i as int]@);
            }
            i += 1;
        }
        if let Some(v) = &self.view.providers {
            let ghost list = self@.view.providers->0;
            let mut j: usize = 0;
            while j < v.len()
                invariant
                    j <= v@.len(),
                    self@.view.providers == Some(list),
                    list == definitions_of(v@),
                    forall|k: int|
                        0 <= k < j ==> (#[trigger] list[k]).deployment != Some(name@),
                decreases v@.len() - j,
            {
                if let Some(d) = &v[j].deployment {
                    if same(d.as_str(), name) {
                        proof {
                            assert(list[j as int].deployment == Some(name@));
                        }
                        return true;
                    }
                }
                j += 1;
            }
        }
        false
    }

    fn provider_known(&self, provider: ProviderKind) -> (r: bool)
        ensures
            r == self@.provider_known(provider),
    {
        if let Some(v) = &self.view.providers {
            let ghost list = self@.view.providers->0;
            let mut j: usize = 0;
            while j < v.len()
                invariant
                    j <= v@.len(),
                    self@.view.providers == Some(list),
                    list == definitions_of(v@),
                    forall|k: int| 0 <= k < j ==> (#[trigger] list[k]).provider != provider,
                decreases v@.len() - j,
            {
                if v[j].provider == provider {
                    proof {
                        assert(list[j as int].provider == provider);
                    }
                    return true;
                }
                j += 1;
            }
        }
        false
    }

    fn rename(&self, name: &str) -> (r: Option<Definition>)
        ensures
            match r {
                Some(d) => self@.definition is Some && d@ == self@.named(name@),
                None => self@.definition is None,
            },
    {
        let mut d = match clone_definition(&self.definition) {
            Some(d) => d,
            None => {
                return None;
            },
        };
        let unchanged: bool = match &d.deployment {
            Some(old) => same(name, old.as_str()),
            None => same(name, ""),
        };
        proof {
            reveal_strlit("");
            assert(""@ =~= Seq::<char>::empty());
        }
        let known: bool = self.provider_known(d.provider);
        d.deployment = Some(name.to_owned());
        if !self.existing || !unchanged {
            d.slot = Some(
                if known {
                    name.to_owned()
                } else {
                    "default".to_owned()
                },
            );
        }
        proof {
            assert(d@ =~= self@.named(name@));
        }
        Some(d)
    }

    fn set_definition(&mut self, d: Definition)
        requires
            old(self).wf(),
        ensures
            final(self).wf(),
            final(self)@ == (UiView { definition: Some(d@), ..old(self)@ }),
    {
        let ghost u_v = *self;
        let ghost v = self@;
        let ghost dv = d@;
        self.definition = Some(d);
        proof {
            lemma_kept(u_v, *self);
            assert(self@ == UiView { definition: Some(dv), ..v });
        }
    }

    fn finish_name(&mut self, name: &str, r: &Rulings) -> (q: Result<Option<Operation>, String>)
        requires
            old(self).wf(),
        ensures
            final(self).wf(),
            out(final(self)@, q) == old(self)@.naming(name@, r@),
    {
        proof {
            reveal(UiView::naming);
        }
        let d = match self.rename(name) {
            Some(d) => d,
            None => {
                return Err("Choose provider".to_owned());
            },
        };
        let provider: ProviderKind = d.provider;
        let endpoint: String = match &d.endpoint {
            Some(s) => s.clone(),
            None => String::new(),
        };
        proof {
            if d@.endpoint is None {
                assert(endpoint@ =~= Seq::<char>::empty());
            }
        }
        self.set_definition(d);
        if provider == ProviderKind::OpenaiCompatible || self.existing || self.editing_connection {
            self.field(
                "API base URL · compatible services include /v1 if needed",
                Field::Endpoint,
                endpoint,
            );
            Ok(None)
        } else {
            self.credentials(r)
        }
    }

    fn start(&mut self, provider: ProviderKind, r: &Rulings) -> (q: Result<
        Option<Operation>,
        String,
    >)
        requires
            old(self).wf(),
        ensures
            final(self).wf(),
            out(final(self)@, q) == old(self)@.starting(provider, r@),
    {
        proof {
            reveal(UiView::starting);
        }
        let ghost u_v = *self;
        let ghost v = self@;
        self.definition = Some(make_definition(provider));
        self.existing = false;
        proof {
            lemma_kept(u_v, *self);
            assert(self@ == UiView {
                definition: Some(setup::first_definition(provider)),
                existing: false,
                ..v
            });
        }
        let name: &str = make_name(provider);
        if self.name_exists(name) {
            self.field("Deployment name · must be unique", Field::Name, name.to_owned());
            Ok(None)
        } else {
            self.finish_name(name, r)
        }
    }

    fn usable(&self, provider: ProviderKind) -> (items: Vec<(String, Choice)>)
        ensures
            entries_of(items@) == (if self@.view.providers is Some {
                self@.usable(provider, self@.view.providers->0.len() as int)
            } else {
                seq![]
            }),
    {
        let mut items: Vec<(String, Choice)> = Vec::new();
        proof {
            assert(entries_of(items@) =~= Seq::<(Seq<char>, ChoiceView)>::empty());
        }
        if let Some(v) = &self.view.providers {
            let ghost list = self@.view.providers->0;
            let mut i: usize = 0;
            while i < v.len()
                invariant
                    i <= v@.len(),
                    self@.view.providers == Some(list),
                    list == definitions_of(v@),
                    entries_of(items@) == self@.usable(provider, i as int),
                decreases v@.len() - i,
            {
                let ghost before = entries_of(items@);
                proof {
                    assert(list[i as int] == v@[i as int]@);
                }
                if v[i].provider == provider {
                    let label: String = match &v[i].deployment {
                        Some(s) => cat2("Use ", s.as_str()),
                        None => cat2("Use ", "deployment"),
                    };
                    let ghost entry = (label@, ChoiceView::Existing(list[i as int]));
                    items.push((label, Choice::Existing(v[i].clone())));
                    proof {
                        assert(entries_of(items@) =~= before.push(entry));
                    }
                }
                i += 1;
            }
        }
        items
    }

    fn log_in(&mut self, provider: ProviderKind, r: &Rulings) -> (q: Option<Operation>)
        requires
            old(self).wf(),
        ensures
            final(self).wf(),
            out(final(self)@, Ok(q)) == old(self)@.logging_in(provider, r@),
    {
        proof {
            reveal(UiView::logging_in);
        }
        let ghost u_v = *self;
        let ghost v = self@;
        let mut items = self.usable(provider);
        if items.len() == 0 {
            self.save_default = !self.attached;
            proof {
                lemma_kept(u_v, *self);
                assert(self@ == UiView {
                    save_default: v.saving(ChoiceView::New(provider), false),
                    ..v
                });
            }
            match self.start(provider, r) {
                Ok(op) => op,
                Err(problem) => {
                    let ghost u_w = *self;
                    let ghost w = self@;
                    let ghost p = problem@;
                    self.status = problem;
                    proof {
                        lemma_kept(u_w, *self);
                        assert(self@ == UiView { status: p, ..w });
                    }
                    None
                },
            }
        } else {
            let ghost before = entries_of(items@);
            items.push(("New deployment…".to_owned(), Choice::New(provider)));
            proof {
                assert(entries_of(items@) =~= before.push(
                    ("New deployment…"@, ChoiceView::New(provider)),
                ));
            }
            self.menu("Log in · choose deployment", items);
            None
        }
    }

    fn describe_efforts(&mut self, model: ModelRef) -> (q: Operation)
        requires
            old(self).wf(),
        ensures
            final(self).wf(),
            out(final(self)@, Ok(Some(q))) == old(self)@.describing(model@),
    {
        proof {
            reveal(Ui::wf);
        }
        proof {
            reveal(UiView::describing);
        }
        let ghost v = self@;
        if self.effort_selection.is_none() {
            self.prefix = Some(cat3("/model ", model.model.as_str(), " "));
            self.editor = Editor::default();
            self.stage = Stage::Menu(Vec::new());
            self.title = "Reasoning effort".to_owned();
            proof {
                assert(self.stage@->Menu_0 =~= Seq::<(Seq<char>, ChoiceView)>::empty());
            }
        }
        self.status = "Loading model capabilities…".to_owned();
        self.pending = true;
        self.mutation = false;
        proof {
            assert(self@ == v.describing(model@).ui);
        }
        Operation::Describe(model)
    }

    fn finish_selection(&mut self, selection: Selection) -> (q: Result<Option<Operation>, String>)
        requires
            old(self).wf(),
        ensures
            final(self).wf(),
            out(final(self)@, q) == old(self)@.selecting(selection@),
    {
        proof {
            reveal(UiView::selecting);
        }
        let ghost u_v = *self;
        let ghost v = self@;
        if self.save_default {
            if !self.feature {
                return Err("Setup unavailable".to_owned());
            }
            self.pending = true;
            self.mutation = true;
            proof {
                lemma_kept(u_v, *self);
                assert(self@ == UiView { pending: true, mutation: true, ..v });
            }
            Ok(Some(Operation::Default(selection)))
        } else {
            let ghost s = selection@;
            self.chosen = Some(selection);
            self.active = false;
            proof {
                lemma_kept(u_v, *self);
                assert(self@ == UiView { chosen: Some(s), active: false, ..v });
            }
            Ok(None)
        }
    }

    pub fn save(&mut self, id: &str, limits: Limits, r: &Rulings) -> (q: Result<
        Option<Operation>,
        String,
    >)
        requires
            old(self).wf(),
        ensures
            final(self).wf(),
            out(final(self)@, q) == old(self)@.saved(id@, limits, r@),
    {
        proof {
            reveal(UiView::saved);
        }
        let ghost u_v0 = *self;
        let ghost v0 = self@;
        if self.declare_effort {
            self.declare_effort = false;
            let ghost u_v = *self;
            let ghost v = self@;
            proof {
                lemma_kept(u_v0, *self);
                assert(v == UiView { declare_effort: false, ..v0 });
            }
            let mut d = match clone_definition(&self.definition) {
                Some(d) => d,
                None => {
                    return Err("Choose provider".to_owned());
                },
            };
            let ghost before = d@;
            d.declare(id, limits);
            self.definition = Some(d);
            self.candidate = Some(Candidate { id: id.to_owned(), context: None, output: None });
            proof {
                lemma_kept(u_v, *self);
                assert(self@ == UiView {
                    definition: Some(before.declaring(id@, limits)),
                    candidate: Some(CandidateView { id: id@, context: None, output: None }),
                    ..v
                });
            }
            let empty = String::new();
            proof {
                assert(empty@ =~= Seq::<char>::empty());
            }
            self.field("Effort IDs · comma-separated · optional", Field::Efforts, empty);
            return Ok(None);
        }
        let mut d = match clone_definition(&self.definition) {
            Some(d) => d,
            None => {
                return Err("Choose provider".to_owned());
            },
        };
        let deployment: String = match &d.deployment {
            Some(s) => s.clone(),
            None => {
                return Err("Deployment name".to_owned());
            },
        };
        if let Some(problem) = &r.route {
            return Err(problem.clone());
        }
        d.declare(id, limits);
        if !self.feature {
            return Err("Setup unavailable".to_owned());
        }
        self.pending = true;
        self.mutation = true;
        self.status = "Saving provider configuration…".to_owned();
        proof {
            lemma_kept(u_v0, *self);
            assert(self@ == UiView {
                pending: true,
                mutation: true,
                status: "Saving provider configuration…"@,
                ..v0
            });
        }
        let model = ModelRef { deployment, model: id.to_owned() };
        Ok(Some(Operation::Save { definition: d, model }))
    }

    fn save_declared_model(&mut self, r: &Rulings) -> (q: Result<Option<Operation>, String>)
        requires
            old(self).wf(),
        ensures
            final(self).wf(),
            out(final(self)@, q) == old(self)@.saved_declared(r@),
    {
        proof {
            reveal(UiView::saved_declared);
        }
        let id: String = match &self.candidate {
            Some(c) => c.id.clone(),
            None => {
                return Err("Choose model".to_owned());
            },
        };
        let limits: Option<Option<Limits>> = match &self.definition {
            Some(d) => d.limits(id.as_str()),
            None => {
                return Err("Choose provider".to_owned());
            },
        };
        match limits {
            Some(Some(limits)) => self.save(id.as_str(), limits, r),
            _ => Err(r.unreadable.clone()),
        }
    }

    fn output_field(&mut self, value: String)
        requires
            old(self).wf(),
        ensures
            final(self).wf(),
            final(self)@ == old(self)@.output_field(value@),
    {
        self.field("Maximum output tokens · less than context window", Field::Output, value)
    }

    pub fn limits(&mut self, r: &Rulings) -> (q: Result<Option<Operation>, String>)
        requires
            old(self).wf(),
        ensures
            final(self).wf(),
            out(final(self)@, q) == old(self)@.limiting(r@),
    {
        proof {
            reveal(UiView::limiting);
        }
        let c = match clone_candidate(&self.candidate) {
            Some(c) => c,
            None => {
                return Err("Choose model".to_owned());
            },
        };
        let empty = String::new();
        proof {
            assert(empty@ =~= Seq::<char>::empty());
        }
        match c.context {
            None => {
                self.field("Context window tokens · positive integer", Field::Context, empty);
                Ok(None)
            },
            Some(context) => match c.output {
                Some(output) => if output < context {
                    if let Some(problem) = &r.limits {
                        return Err(problem.clone());
                    }
                    self.save(c.id.as_str(), make_limits(context, output), r)
                } else {
                    self.output_field(empty);
                    Ok(None)
                },
                None => {
                    self.output_field(empty);
                    Ok(None)
                },
            },
        }
    }

    fn set_candidate(&mut self, c: Candidate)
        requires
            old(self).wf(),
        ensures
            final(self).wf(),
            final(self)@ == (UiView { candidate: Some(c@), ..old(self)@ }),
    {
        let ghost u_v = *self;
        let ghost v = self@;
        let ghost cv = c@;
        self.candidate = Some(c);
        proof {
            lemma_kept(u_v, *self);
            assert(self@ == UiView { candidate: Some(cv), ..v });
        }
    }

    fn refusal(&self, r: &Rulings) -> (p: Option<String>)
        ensures
            match self@.request(r@) {
                Ok(_) => p is None,
                Err(problem) => p matches Some(s) && s@ == problem,
            },
    {
        match self.request(r) {
            Ok(_) => None,
            Err(problem) => Some(problem),
        }
    }

    fn declared(&self, id: &str) -> (p: Option<Option<Limits>>)
        requires
            self@.definition is Some,
        ensures
            p == self@.definition->0.limits(id@),
    {
        match &self.definition {
            Some(d) => d.limits(id),
            None => None,
        }
    }

    fn propose(&mut self, c: Candidate, r: &Rulings) -> (q: Result<Option<Operation>, String>)
        requires
            old(self).wf(),
        ensures
            final(self).wf(),
            out(final(self)@, q) == old(self)@.proposing(c@, r@),
    {
        proof {
            reveal(UiView::proposing);
        }
        if let Some(problem) = self.refusal(r) {
            return Err(problem);
        }
        match self.declared(c.id.as_str()) {
            Some(Some(limits)) => self.save(c.id.as_str(), limits, r),
            Some(None) => Err(r.unreadable.clone()),
            None => {
                self.set_candidate(
                    Candidate { id: c.id, context: r.context, output: r.output },
                );
                self.limits(r)
            },
        }
    }

    fn set_default_effort(&mut self, default: Option<String>, r: &Rulings) -> (q: Result<
        Option<Operation>,
        String,
    >)
        requires
            old(self).wf(),
        ensures
            final(self).wf(),
            out(final(self)@, q) == old(self)@.defaulting(scene::optional(default), r@),
    {
        proof {
            reveal(UiView::defaulting);
        }
        let ghost u_v = *self;
        let ghost v = self@;
        let id: String = match &self.candidate {
            Some(c) => c.id.clone(),
            None => {
                return Err("Choose model".to_owned());
            },
        };
        let mut d = match clone_definition(&self.definition) {
            Some(d) => d,
            None => {
                return Err("Choose provider".to_owned());
            },
        };
        let mut e = match d.effort(id.as_str()) {
            Some(e) => e,
            None => {
                return Err(r.unreadable.clone());
            },
        };
        if let Some(problem) = &r.effort {
            return Err(problem.clone());
        }
        let ghost ev = e@;
        let ghost dv = d@;
        let ghost wanted = scene::optional(default);
        e.default = default;
        proof {
            assert(e@ =~= EffortView { default: wanted, ..ev });
        }
        d.declare_effort(e);
        self.definition = Some(d);
        proof {
            lemma_kept(u_v, *self);
            assert(self@ == UiView {
                definition: Some(dv.with_effort(EffortView { default: wanted, ..ev })),
                ..v
            });
        }
        self.save_declared_model(r)
    }

    /// Opens setting up for a command.
    pub fn open(&mut self, o: Opening, attached: bool) -> (q: Option<Operation>)
        requires
            old(self).wf(),
        ensures
            final(self).wf(),
            out(final(self)@, Ok(q)) == old(self)@.opening(o, attached),
    {
        proof {
            reveal(Ui::wf);
        }
        proof {
            reveal(UiView::opening);
        }
        let ghost v = self@;
        self.active = true;
        if self.pending && self.mutation {
            self.title = "Setup save in progress".to_owned();
            self.status = "Waiting for the independent result; Ctrl+C closes.".to_owned();
            proof {
                assert(self@ == v.opening(o, attached).ui);
            }
            return None;
        }
        self.pending = false;
        self.integration = None;
        self.effort_selection = None;
        self.prefix = match o {
            Opening::Models => Some("/model ".to_owned()),
            Opening::Effort => Some("/effort ".to_owned()),
            _ => None,
        };
        self.save_default = false;
        self.followup = true;
        self.attempt = bump(self.attempt);
        self.back = Vec::new();
        self.credential = None;
        self.existing = false;
        self.editing_connection = false;
        self.declare_effort = false;
        self.attached = attached;
        self.definition = None;
        self.candidate = None;
        wipe(&mut self.secret);
        self.editor = Editor::default();
        self.selected = 0;
        self.stage = Stage::Menu(Vec::new());
        self.title = "Model setup".to_owned();
        proof {
            lemma_blank_valid();
            assert(self.stage@->Menu_0 =~= Seq::<(Seq<char>, ChoiceView)>::empty());
            assert(screens_of(self.back@) =~= Seq::<ScreenView>::empty());
        }
        if !self.feature {
            self.status =
            "This application profile does not provide model setup. Use the built-in rsi tui profile.".to_owned();
            proof {
                assert(self@ == v.opening(o, attached).ui);
            }
            return None;
        }
        self.status = "Loading configuration…".to_owned();
        self.pending = true;
        self.mutation = false;
        proof {
            assert(self@ == v.opening(o, attached).ui);
        }
        Some(Operation::Open(o))
    }

    /// Opens the choice of an effort for the selected model.
    pub fn open_effort(&mut self, selection: Selection) -> (q: Option<Operation>)
        requires
            old(self).wf(),
        ensures
            final(self).wf(),
            ({
                let o = old(self)@.opening(Opening::Effort, true);
                &&& operation_of(q) == o.op
                &&& final(self)@ == (if o.ui.mutation {
                    o.ui
                } else {
                    UiView { effort_selection: Some(selection@), ..o.ui }
                })
            }),
    {
        let op = self.open(Opening::Effort, true);
        let ghost u_v = *self;
        let ghost v = self@;
        let ghost s = selection@;
        if !self.mutation {
            self.effort_selection = Some(selection);
            proof {
                lemma_kept(u_v, *self);
                assert(self@ == UiView { effort_selection: Some(s), ..v });
            }
        }
        op
    }

    fn edit_connection(&mut self) -> (q: Result<Option<Operation>, String>)
        requires
            old(self).wf(),
        ensures
            final(self).wf(),
            out(final(self)@, q) == old(self)@.connecting(),
    {
        proof {
            reveal(UiView::connecting);
        }
        let ghost u_v = *self;
        let ghost v = self@;
        self.editing_connection = true;
        proof {
            lemma_kept(u_v, *self);
            assert(self@ == UiView { editing_connection: true, ..v });
        }
        let name: String = match &self.definition {
            Some(d) => match &d.deployment {
                Some(s) => s.clone(),
                None => String::new(),
            },
            None => {
                return Err("Choose provider".to_owned());
            },
        };
        proof {
            if self@.definition->0.deployment is None {
                assert(name@ =~= Seq::<char>::empty());
            }
        }
        self.field("Deployment name", Field::Name, name);
        Ok(None)
    }

    fn enter_manually(&mut self)
        requires
            old(self).wf(),
        ensures
            final(self).wf(),
            final(self)@ == (UiView { declare_effort: true, ..old(self)@ }).field(
                "Exact model ID"@,
                Field::Model,
                seq![],
            ),
    {
        let ghost u_v = *self;
        let ghost v = self@;
        self.declare_effort = true;
        let empty = String::new();
        proof {
            lemma_kept(u_v, *self);
            assert(self@ == UiView { declare_effort: true, ..v });
            assert(empty@ =~= Seq::<char>::empty());
        }
        self.field("Exact model ID", Field::Model, empty);
    }

    fn use_definition(&mut self, d: Definition)
        requires
            old(self).wf(),
        ensures
            final(self).wf(),
            final(self)@ == (UiView { existing: true, definition: Some(d@), ..old(self)@ }),
    {
        let ghost u_v = *self;
        let ghost v = self@;
        let ghost dv = d@;
        self.existing = true;
        self.definition = Some(d);
        proof {
            lemma_kept(u_v, *self);
            assert(self@ == UiView { existing: true, definition: Some(dv), ..v });
        }
    }

    #[verifier::rlimit(40)]
    fn follow(&mut self, choice: Choice, r: &Rulings) -> (q: Result<Option<Operation>, String>)
        requires
            old(self).wf(),
        ensures
            final(self).wf(),
            out(final(self)@, q) == old(self)@.following(choice@, r@),
    {
        proof {
            reveal(UiView::following);
        }
        match choice {
            Choice::Provider(p) => Ok(self.log_in(p, r)),
            Choice::New(p) => self.start(p, r),
            Choice::DiscoverExisting(d) => {
                self.use_definition(d);
                let models: Vec<Candidate> = Vec::new();
                proof {
                    assert(candidates_of(models@) =~= Seq::<CandidateView>::empty());
                }
                self.discovery_menu(models);
                Ok(None)
            },
            Choice::Existing(d) => {
                self.use_definition(d);
                self.credentials(r)
            },
            Choice::Login => {
                let attached: bool = self.attached;
                Ok(self.open(Opening::Login(None), attached))
            },
            Choice::Refresh => {
                let attached: bool = self.attached;
                Ok(self.open(Opening::Models, attached))
            },
            Choice::Discover => Ok(self.discover(r)),
            Choice::Credentials => self.credentials(r),
            Choice::Connection => self.edit_connection(),
            Choice::Manual => {
                self.enter_manually();
                Ok(None)
            },
            Choice::Candidate(c) => self.propose(c, r),
            Choice::Route(m) => Ok(Some(self.describe_efforts(m))),
            Choice::Effort(s) => self.finish_selection(s),
            Choice::EffortDefault(e) => self.set_default_effort(e, r),
        }
    }

    /// Acts on a choice. With `default` the model is saved as the default.
    pub fn take_choice(&mut self, choice: Choice, default: bool, r: &Rulings) -> (q: Result<
        Option<Operation>,
        String,
    >)
        requires
            old(self).wf(),
        ensures
            final(self).wf(),
            out(final(self)@, q) == old(self)@.choosing(choice@, default, r@),
    {
        proof {
            reveal(UiView::choosing);
        }
        let ghost u_v = *self;
        let ghost v = self@;
        let ghost c = choice@;
        let keeps: bool = match &choice {
            Choice::Effort(_) => true,
            Choice::EffortDefault(_) => true,
            _ => false,
        };
        self.save_default = default || !self.attached || (keeps && self.save_default);
        proof {
            lemma_kept(u_v, *self);
            assert(self@ == UiView { save_default: v.saving(c, default), ..v });
        }
        self.follow(choice, r)
    }
}

impl Ui {
    fn submit_efforts(&mut self, value: &str, r: &Rulings) -> (q: Result<
        Option<Operation>,
        String,
    >)
        requires
            old(self).wf(),
        ensures
            final(self).wf(),
            out(final(self)@, q) == old(self)@.entered_efforts(value@, r@),
    {
        proof {
            reveal(UiView::entered_efforts);
        }
        if byte_len(value) == 0 {
            proof {
                text::lemma_size_len(value@);
            }
            return self.save_declared_model(r);
        }
        proof {
            assert(value@.len() > 0) by {
                if value@.len() == 0 {
                    assert(value@ =~= Seq::<char>::empty());
                    lemma_blank_valid();
                }
            }
        }
        if let Some(problem) = &r.value {
            return Err(problem.clone());
        }
        let id: String = match &self.candidate {
            Some(c) => c.id.clone(),
            None => {
                return Err("Choose model".to_owned());
            },
        };
        let mut d = match clone_definition(&self.definition) {
            Some(d) => d,
            None => {
                return Err("Choose provider".to_owned());
            },
        };
        let ids = split_ids(value);
        let ghost list = text::views(ids@);
        let ghost u_v = *self;
        let ghost v = self@;
        let ghost dv = d@;
        let ghost e = EffortView { id: id@, supported: list, default: None };
        let entry = EffortEntry { id, supported: clone_texts(&ids), default: None };
        proof {
            assert(entry@ =~= e);
        }
        d.declare_effort(entry);
        self.definition = Some(d);
        proof {
            lemma_kept(u_v, *self);
            assert(self@ == UiView { definition: Some(dv.with_effort(e)), ..v });
        }
        let ghost tail = Seq::new(
            list.len(),
            |i: int| (list[i], ChoiceView::EffortDefault(Some(list[i]))),
        );
        let ghost head = seq![("Default unknown"@, ChoiceView::EffortDefault(None))];
        let mut items: Vec<(String, Choice)> = Vec::new();
        items.push(("Default unknown".to_owned(), Choice::EffortDefault(None)));
        let mut i: usize = 0;
        proof {
            assert(entries_of(items@) =~= head + tail.take(0));
        }
        while i < ids.len()
            invariant
                i <= ids@.len(),
                list == text::views(ids@),
                tail == Seq::new(
                    list.len(),
                    |i: int| (list[i], ChoiceView::EffortDefault(Some(list[i]))),
                ),
                entries_of(items@) == head + tail.take(i as int),
            decreases ids@.len() - i,
        {
            let ghost before = entries_of(items@);
            items.push((ids[i].clone(), Choice::EffortDefault(Some(ids[i].clone()))));
            proof {
                assert(list[i as int] == ids@[i as int]@);
                assert(entries_of(items@) =~= before.push(tail[i as int]));
                assert(head + tail.take(i as int + 1) =~= before.push(tail[i as int]));
            }
            i += 1;
        }
        proof {
            assert(tail.take(i as int) =~= tail);
        }
        self.menu("Declared default effort", items);
        Ok(None)
    }

    fn submit_name(&mut self, value: &str, r: &Rulings) -> (q: Result<Option<Operation>, String>)
        requires
            old(self).wf(),
        ensures
            final(self).wf(),
            out(final(self)@, q) == old(self)@.entered_name(value@, r@),
    {
        proof {
            reveal(UiView::entered_name);
        }
        if let Some(problem) = &r.value {
            return Err(problem.clone());
        }
        let current: String = match &self.definition {
            Some(d) => match &d.deployment {
                Some(s) => s.clone(),
                None => String::new(),
            },
            None => String::new(),
        };
        proof {
            if !(self@.definition is Some && self@.definition->0.deployment is Some) {
                assert(current@ =~= Seq::<char>::empty());
            }
        }
        if self.name_exists(value) && !(self.existing && same(value, current.as_str())) {
            return Err("Deployment name already exists; enter a different name".to_owned());
        }
        self.finish_name(value, r)
    }

    fn submit_endpoint(&mut self, value: String, r: &Rulings) -> (q: Result<
        Option<Operation>,
        String,
    >)
        requires
            old(self).wf(),
        ensures
            final(self).wf(),
            out(final(self)@, q) == old(self)@.entered_endpoint(value@, r@),
    {
        proof {
            reveal(UiView::entered_endpoint);
        }
        let mut d = match clone_definition(&self.definition) {
            Some(d) => d,
            None => {
                return Err("Choose provider".to_owned());
            },
        };
        if let Some(problem) = &r.request {
            return Err(problem.clone());
        }
        let ghost u_v = *self;
        let ghost v = self@;
        let ghost dv = d@;
        let ghost s = value@;
        d.endpoint = Some(value);
        proof {
            assert(d@ =~= DefinitionView { endpoint: Some(s), ..dv });
        }
        self.definition = Some(d);
        proof {
            lemma_kept(u_v, *self);
            assert(self@ == UiView {
                definition: Some(DefinitionView { endpoint: Some(s), ..dv }),
                ..v
            });
        }
        self.credentials(r)
    }

    fn submit_size(&mut self, field: Field, value: &str, r: &Rulings) -> (q: Result<
        Option<Operation>,
        String,
    >)
        requires
            old(self).wf(),
        ensures
            final(self).wf(),
            out(final(self)@, q) == old(self)@.entered_size(field, value@, r@),
    {
        proof {
            reveal(UiView::entered_size);
        }
        let n: u32 = match parse_within(value, 4294967295) {
            Some(n) => n as u32,
            None => {
                return Err("Enter a positive 32-bit integer".to_owned());
            },
        };
        if n == 0 {
            return Err("Enter a positive 32-bit integer".to_owned());
        }
        let mut c = match clone_candidate(&self.candidate) {
            Some(c) => c,
            None => {
                return Err("Choose model".to_owned());
            },
        };
        let ghost cv = c@;
        let ghost u_v = *self;
        let ghost v = self@;
        if matches!(field, Field::Context) {
            if n < 2 {
                return Err(
                    "Context must be at least 2 tokens and greater than output".to_owned(),
                );
            }
            c.context = Some(n);
            let shown: String = match c.output {
                Some(output) => decimal(output as u64),
                None => String::new(),
            };
            proof {
                if cv.output is None {
                    assert(shown@ =~= Seq::<char>::empty());
                }
                assert(c@ =~= CandidateView { context: Some(n), ..cv });
            }
            self.candidate = Some(c);
            proof {
                lemma_kept(u_v, *self);
                assert(self@ == UiView {
                    candidate: Some(CandidateView { context: Some(n), ..cv }),
                    ..v
                });
            }
            self.output_field(shown);
            return Ok(None);
        }
        if c.context.is_none() {
            return Err("Enter context window first".to_owned());
        }
        if let Some(problem) = &r.limits {
            return Err(problem.clone());
        }
        c.output = Some(n);
        proof {
            assert(c@ =~= CandidateView { output: Some(n), ..cv });
        }
        self.candidate = Some(c);
        proof {
            lemma_kept(u_v, *self);
            assert(self@ == UiView {
                candidate: Some(CandidateView { output: Some(n), ..cv }),
                ..v
            });
        }
        self.limits(r)
    }

    /// Acts on an entered line of text.
    pub fn submit_field(&mut self, field: Field, r: &Rulings) -> (q: Result<
        Option<Operation>,
        String,
    >)
        requires
            old(self).wf(),
        ensures
            final(self).wf(),
            out(final(self)@, q) == old(self)@.entered(field, r@),
    {
        proof {
            reveal(UiView::entered);
        }
        let value = trim(self.editor.text());
        match field {
            Field::Efforts => self.submit_efforts(value.as_str(), r),
            Field::Name => self.submit_name(value.as_str(), r),
            Field::Endpoint => self.submit_endpoint(value, r),
            Field::Model => {
                if let Some(problem) = &r.value {
                    return Err(problem.clone());
                }
                let default: bool = self.save_default;
                self.take_choice(
                    Choice::Candidate(Candidate { id: value, context: None, output: None }),
                    default,
                    r,
                )
            },
            Field::Context => self.submit_size(Field::Context, value.as_str(), r),
            Field::Output => self.submit_size(Field::Output, value.as_str(), r),
        }
    }

    fn is_unavailable(&self) -> (r: bool)
        ensures
            r == self@.unavailable(),
    {
        match &self.credential {
            Some(c) => match &c.availability {
                Availability::Unavailable { .. } => true,
                _ => false,
            },
            None => false,
        }
    }

    fn is_editable(&self) -> (r: bool)
        ensures
            r == (self@.credential matches Some(c) && c.editable),
    {
        match &self.credential {
            Some(c) => c.editable,
            None => false,
        }
    }

    fn take_secret(&mut self) -> (secret: String)
        requires
            old(self).wf(),
        ensures
            final(self).wf(),
            secret@ == old(self)@.secret,
            final(self)@ == (UiView { secret: seq![], ..old(self)@ }),
    {
        proof {
            reveal(Ui::wf);
            lemma_blank_valid();
        }
        let ghost v = self@;
        let mut secret = String::new();
        proof {
            assert(secret@ =~= Seq::<char>::empty());
        }
        std::mem::swap(&mut secret, &mut self.secret);
        proof {
            assert(self@ == UiView { secret: seq![], ..v });
        }
        secret
    }

    fn saving_credential(&mut self)
        requires
            old(self).wf(),
        ensures
            final(self).wf(),
            final(self)@ == (UiView {
                pending: true,
                mutation: true,
                status: "Saving credential…"@,
                ..old(self)@
            }),
    {
        let ghost u_v = *self;
        let ghost v = self@;
        self.pending = true;
        self.mutation = true;
        self.status = "Saving credential…".to_owned();
        proof {
            lemma_kept(u_v, *self);
            assert(self@ == UiView {
                pending: true,
                mutation: true,
                status: "Saving credential…"@,
                ..v
            });
        }
    }

    fn submit_integration_secret(&mut self, r: &Rulings) -> (q: Result<Option<Operation>, String>)
        requires
            old(self).wf(),
        ensures
            final(self).wf(),
            out(final(self)@, q) == old(self)@.entered_integration(r@),
    {
        proof {
            reveal(UiView::entered_integration);
        }
        if self.integration.is_none() {
            return Err("Integration credential screen is unavailable".to_owned());
        }
        if !self.is_editable() {
            return Err("Read an editable credential status before saving".to_owned());
        }
        let mut secret = self.take_secret();
        if !r.secret {
            wipe(&mut secret);
            return Err("Enter a nonempty API key within 64 KiB".to_owned());
        }
        self.saving_credential();
        Ok(Some(Operation::SetIntegration(secret)))
    }

    /// Acts on an entered key.
    pub fn submit_secret(&mut self, r: &Rulings) -> (q: Result<Option<Operation>, String>)
        requires
            old(self).wf(),
        ensures
            final(self).wf(),
            out(final(self)@, q) == old(self)@.entered_secret(r@),
    {
        proof {
            reveal(UiView::entered_secret);
        }
        if self.integration.is_some() {
            return self.submit_integration_secret(r);
        }
        if self.is_unavailable() {
            return self.credentials(r);
        }
        if self.secret.as_str().is_empty() {
            let configured: bool = match &self.credential {
                Some(c) => match &c.availability {
                    Availability::Configured { .. } => true,
                    _ => false,
                },
                None => false,
            };
            if !configured {
                return Err(
                    "No available credential. Enter a key or edit connection settings (Ctrl+E).".to_owned(),
                );
            }
            return Ok(self.discover(r));
        }
        let request = match self.request(r) {
            Ok(request) => request,
            Err(problem) => {
                return Err(problem);
            },
        };
        let mut secret = self.take_secret();
        if !r.secret {
            wipe(&mut secret);
            return Err("Invalid API key".to_owned());
        }
        if !self.feature {
            wipe(&mut secret);
            return Err("Setup unavailable".to_owned());
        }
        self.saving_credential();
        Ok(
            Some(
                Operation::CredentialSet {
                    provider: request.provider,
                    slot: request.slot,
                    secret,
                },
            ),
        )
    }

    /// Adds to the key that is entered.
    #[verifier::rlimit(40)]
    pub fn secret_insert(&mut self, value: &str) -> (q: Result<(), String>)
        requires
            old(self).wf(),
        ensures
            final(self).wf(),
            match q {
                Ok(_) => done(final(self)@) == old(self)@.typed(value@),
                Err(e) => failing(final(self)@, e@) == old(self)@.typed(value@),
            },
            q is Ok && old(self)@.secret.len() == 0 ==> final(self).reserved >= SECRET_BYTES,
            q is Err || old(self)@.secret.len() > 0 ==> final(self).reserved == old(self).reserved,
    {
        proof {
            reveal(UiView::typed);
        }
        if self.integration.is_some() && !self.is_editable() {
            return Err("Read an editable credential status before entering a key".to_owned());
        }
        if self.credential.is_some() && !self.is_editable() {
            return Err(
                "Credential is read only; edit its environment source or connection settings.".to_owned(),
            );
        }
        if byte_len(self.secret.as_str()).saturating_add(byte_len(value)) > SECRET_BYTES
            || has_control(value) {
            return Err("API key must be a single line, at most 64 KiB".to_owned());
        }
        self.grow_secret(value);
        Ok(())
    }

    fn grow_secret(&mut self, value: &str)
        requires
            old(self).wf(),
            text::size(old(self)@.secret) + text::size(value@) <= SECRET_BYTES,
            !controlled(value@),
        ensures
            final(self).wf(),
            final(self)@ == (UiView { secret: old(self)@.secret + value@, ..old(self)@ }),
            old(self)@.secret.len() == 0 ==> final(self).reserved >= SECRET_BYTES,
            old(self)@.secret.len() > 0 ==> final(self).reserved == old(self).reserved,
    {
        let ghost v = self@;
        proof {
            reveal(Ui::wf);
        }
        if self.secret.as_str().is_empty() {
            proof {
                assert(self.secret@ =~= Seq::<char>::empty());
                lemma_blank_valid();
            }
            self.reserved = reserve(&mut self.secret, SECRET_BYTES);
        }
        self.secret.append(value);
        proof {
            text::lemma_size_concat(v.secret, value@);
            assert(!controlled(v.secret + value@)) by {
                if controlled(v.secret + value@) {
                    let s = v.secret + value@;
                    let i = choose|i: int| 0 <= i < s.len() && text::control(#[trigger] s[i]);
                    if i < v.secret.len() {
                        assert(text::control(v.secret[i]));
                    } else {
                        assert(text::control(value@[i - v.secret.len()]));
                    }
                }
            }
            assert(self@ == UiView { secret: v.secret + value@, ..v });
        }
    }

    fn reconcile(&mut self)
        requires
            old(self).wf(),
        ensures
            final(self).wf(),
            final(self)@ == old(self)@.reconciled(),
    {
        proof {
            reveal(Ui::wf);
        }
        let ghost v = self@;
        self.back = Vec::new();
        self.definition = None;
        self.candidate = None;
        self.credential = None;
        proof {
            assert(screens_of(self.back@) =~= Seq::<ScreenView>::empty());
            assert(self@ == v.reconciled());
        }
    }

    pub fn screen(&self) -> (r: Screen)
        requires
            self.wf(),
        ensures
            r@ == self@.screen(),
            r.editor.wf(),
            r.selected < usize::MAX,
    {
        proof {
            reveal(Ui::wf);
        }
        let r = Screen {
            prefix: clone_optional(&self.prefix),
            declare_effort: self.declare_effort,
            stage: self.stage.clone(),
            title: self.title.clone(),
            editor: self.editor.clone(),
            selected: self.selected,
            candidate: clone_candidate(&self.candidate),
            definition: clone_definition(&self.definition),
            existing: self.existing,
            editing_connection: self.editing_connection,
        };
        proof {
            assert(r@ =~= self@.screen());
        }
        r
    }

    /// Closes setting up.
    pub fn close(&mut self)
        requires
            old(self).wf(),
        ensures
            final(self).wf(),
            final(self)@ == old(self)@.closed(),
    {
        proof {
            reveal(Ui::wf);
            lemma_blank_valid();
        }
        let ghost v = self@;
        self.followup = false;
        self.chosen = None;
        if !(self.mutation && self.pending) {
            self.status = String::new();
            proof {
                assert(self.status@ =~= Seq::<char>::empty());
            }
        }
        if !self.mutation {
            self.pending = false;
        }
        wipe(&mut self.secret);
        self.editor = Editor::default();
        self.back = Vec::new();
        self.active = false;
        proof {
            assert(screens_of(self.back@) =~= Seq::<ScreenView>::empty());
            assert(self@ == v.closed());
        }
    }

    /// Closes setting up because the conversation changed.
    pub fn attachment_changed(&mut self)
        requires
            old(self).wf(),
        ensures
            final(self).wf(),
            final(self)@ == old(self)@.closed(),
    {
        self.close();
    }

    fn restore(&mut self, screen: Screen)
        requires
            old(self).wf(),
            screen.editor.wf(),
            screen.selected < usize::MAX,
        ensures
            final(self).wf(),
            final(self)@ == old(self)@.restored(screen@),
    {
        proof {
            reveal(Ui::wf);
        }
        let ghost v = self@;
        let ghost s = screen@;
        self.prefix = screen.prefix;
        self.menu_revision = bump(self.menu_revision);
        self.declare_effort = screen.declare_effort;
        self.stage = screen.stage;
        self.title = screen.title;
        self.editor = screen.editor;
        self.selected = screen.selected;
        self.candidate = screen.candidate;
        self.definition = screen.definition;
        self.existing = screen.existing;
        self.editing_connection = screen.editing_connection;
        self.credential = None;
        proof {
            assert(self@ == v.restored(s));
        }
    }

    fn rewind(&mut self) -> (screen: Option<Screen>)
        requires
            old(self).wf(),
        ensures
            final(self).wf(),
            ({
                let v = UiView { pending: false, secret: seq![], status: seq![], ..old(self)@ };
                match screen {
                    Some(s) => v.back.len() > 0 && s@ == v.back.last() && s.editor.wf()
                        && s.selected < usize::MAX && final(self)@ == (UiView {
                        back: v.back.drop_last(),
                        ..v
                    }),
                    None => v.back.len() == 0 && final(self)@ == v,
                }
            }),
    {
        proof {
            reveal(Ui::wf);
            lemma_blank_valid();
        }
        let ghost v0 = self@;
        self.pending = false;
        wipe(&mut self.secret);
        self.status = String::new();
        let ghost v = self@;
        proof {
            assert(self.status@ =~= Seq::<char>::empty());
            assert(v == UiView { pending: false, secret: seq![], status: seq![], ..v0 });
        }
        let ghost all = self.back@;
        let screen = self.back.pop();
        proof {
            if all.len() > 0 {
                assert(v.back.last() == all.last()@);
                assert(v.back[v.back.len() - 1].selected < usize::MAX);
                assert(screens_of(self.back@) =~= v.back.drop_last());
                assert(self@ == UiView { back: v.back.drop_last(), ..v });
                assert forall|i: int| 0 <= i < self.back@.len() implies (
                #[trigger] self.back@[i]).editor.wf() by {
                    assert(self.back@[i] == all[i]);
                }
                assert forall|i: int| 0 <= i < self@.back.len() implies (
                #[trigger] self@.back[i]).selected < usize::MAX by {
                    assert(self@.back[i] == v.back[i]);
                }
            } else {
                assert(self@ == v);
            }
        }
        screen
    }

    fn go_back(&mut self, r: &Rulings) -> (q: Option<Operation>)
        requires
            old(self).wf(),
        ensures
            final(self).wf(),
            out(final(self)@, Ok(q)) == old(self)@.backed(r@),
    {
        proof {
            reveal(UiView::backed);
        }
        if self.integration.is_some() || (self.mutation && self.pending) {
            self.close();
            return None;
        }
        match self.rewind() {
            None => {
                self.close();
                None
            },
            Some(screen) => {
                self.restore(screen);
                if matches!(self.stage, Stage::Secret) {
                    match self.credentials(r) {
                        Ok(op) => op,
                        Err(problem) => {
                            self.set_status(problem);
                            None
                        },
                    }
                } else {
                    None
                }
            },
        }
    }

    fn set_status(&mut self, s: String)
        requires
            old(self).wf(),
        ensures
            final(self).wf(),
            final(self)@ == (UiView { status: s@, ..old(self)@ }),
    {
        let ghost u_v = *self;
        let ghost v = self@;
        let ghost text = s@;
        self.status = s;
        proof {
            lemma_kept(u_v, *self);
            assert(self@ == UiView { status: text, ..v });
        }
    }

    fn set_selected(&mut self, n: usize)
        requires
            old(self).wf(),
            n < usize::MAX,
        ensures
            final(self).wf(),
            final(self)@ == (UiView { selected: n, ..old(self)@ }),
    {
        proof {
            reveal(Ui::wf);
        }
        let ghost v = self@;
        self.selected = n;
        proof {
            assert(self@ == UiView { selected: n, ..v });
        }
    }

    fn set_secret_blank(&mut self)
        requires
            old(self).wf(),
        ensures
            final(self).wf(),
            final(self)@ == (UiView { secret: seq![], ..old(self)@ }),
    {
        proof {
            reveal(Ui::wf);
            lemma_blank_valid();
        }
        let ghost v = self@;
        wipe(&mut self.secret);
        proof {
            assert(self@ == UiView { secret: seq![], ..v });
        }
    }

    fn shorten_secret(&mut self)
        requires
            old(self).wf(),
        ensures
            final(self).wf(),
            final(self)@ == (UiView {
                secret: if old(self)@.secret.len() > 0 {
                    old(self)@.secret.drop_last()
                } else {
                    old(self)@.secret
                },
                ..old(self)@
            }),
    {
        proof {
            reveal(Ui::wf);
        }
        let ghost v = self@;
        let _ = self.secret.pop();
        proof {
            if v.secret.len() > 0 {
                let s = v.secret.drop_last();
                text::lemma_size_push(s, v.secret.last());
                assert(s.push(v.secret.last()) =~= v.secret);
                if controlled(s) {
                    let i = choose|i: int| 0 <= i < s.len() && text::control(#[trigger] s[i]);
                    assert(text::control(v.secret[i]));
                }
                assert(self@ == UiView { secret: s, ..v });
            } else {
                assert(self@ == v);
            }
        }
    }

    pub fn indices(&self) -> (r: Vec<usize>)
        ensures
            r@ == self@.indices(),
            forall|i: int| 0 <= i < r@.len() ==> (#[trigger] r@[i]) < self@.items().len(),
            r@.len() <= self@.items().len(),
    {
        proof {
            reveal(UiView::indices);
        }
        let mut out: Vec<usize> = Vec::new();
        match &self.stage {
            Stage::Menu(items) => {
                let query = lower(self.editor.text());
                let ghost list = self@.items();
                let mut i: usize = 0;
                while i < items.len()
                    invariant
                        i <= items@.len(),
                        list == entries_of(items@),
                        query@ == lowered(self@.editor.text),
                        out@ == filtered(list, self@.editor.text, i as int),
                        out@.len() <= i,
                        forall|j: int| 0 <= j < out@.len() ==> (#[trigger] out@[j]) < i,
                    decreases items@.len() - i,
                {
                    proof {
                        assert(list[i as int].0 == items@[i as int].0@);
                    }
                    if contains_text(lower(items[i].0.as_str()).as_str(), query.as_str()) {
                        out.push(i);
                    }
                    i += 1;
                }
            },
            _ => {},
        }
        out
    }
}

impl Ui {
    fn picked(&self) -> (r: Option<(String, Choice)>)
        ensures
            match r {
                Some((label, choice)) => self@.picked() == Some((label@, choice@)),
                None => self@.picked() is None,
            },
    {
        proof {
            reveal(UiView::picked);
        }
        let indices = self.indices();
        if self.selected >= indices.len() {
            return None;
        }
        let index: usize = indices[self.selected];
        match &self.stage {
            Stage::Menu(items) => {
                proof {
                    assert(self@.items()[index as int] == (
                        items@[index as int].0@,
                        items@[index as int].1@,
                    ));
                }
                Some((items[index].0.clone(), items[index].1.clone()))
            },
            _ => None,
        }
    }

    fn finish(
        &mut self,
        result: Result<Option<Operation>, String>,
        screen: Option<Screen>,
    ) -> (q: Option<Operation>)
        requires
            old(self).wf(),
            usable_screen(screen),
        ensures
            final(self).wf(),
            UiView::finished(
                out(old(self)@, result),
                screen_of(screen),
                final(self)@,
                operation_of(q),
            ),
    {
        proof {
            reveal(UiView::finished);
        }
        match result {
            Err(problem) => {
                self.set_status(problem);
                None
            },
            Ok(op) => {
                if let Some(screen) = screen {
                    if self.back.len() < BACK_SCREENS {
                        self.remember(screen);
                    }
                }
                op
            },
        }
    }

    fn remember(&mut self, screen: Screen)
        requires
            old(self).wf(),
            old(self)@.back.len() < BACK_SCREENS,
            screen.editor.wf(),
            screen.selected < usize::MAX,
        ensures
            final(self).wf(),
            final(self)@ == (UiView { back: old(self)@.back.push(screen@), ..old(self)@ }),
    {
        proof {
            reveal(Ui::wf);
        }
        let ghost v = self@;
        let ghost s = screen@;
        let ghost all = self.back@;
        self.back.push(screen);
        proof {
            assert(screens_of(self.back@) =~= v.back.push(s));
            assert(self@ == UiView { back: v.back.push(s), ..v });
            assert forall|i: int| 0 <= i < self.back@.len() implies (
            #[trigger] self.back@[i]).editor.wf() by {
                if i < all.len() {
                    assert(self.back@[i] == all[i]);
                }
            }
            assert forall|i: int| 0 <= i < self@.back.len() implies (
            #[trigger] self@.back[i]).selected < usize::MAX by {
                if i < v.back.len() {
                    assert(self@.back[i] == v.back[i]);
                }
            }
        }
    }

    fn edit_key(&mut self, key: KeyEvent) -> (q: Result<Option<Operation>, String>)
        requires
            old(self).wf(),
        ensures
            final(self).wf(),
            exists|e: EditorView, r: Result<(), &'static str>| #[trigger]
                editor::pressed(old(self)@.editor, key, r, e) && out(final(self)@, q) == (match r {
                    Ok(_) => done(UiView { editor: e, ..old(self)@ }),
                    Err(problem) => failing(UiView { editor: e, ..old(self)@ }, problem@),
                }),
    {
        proof {
            reveal(Ui::wf);
        }
        let ghost v = self@;
        let r = self.editor.key(key);
        proof {
            assert(editor::pressed(v.editor, key, r, self.editor@));
            assert(self@ == UiView { editor: self.editor@, ..v });
        }
        match r {
            Ok(_) => Ok(None),
            Err(problem) => Err(problem.to_owned()),
        }
    }

    fn fill(&mut self, label: &str) -> (q: Result<Option<Operation>, String>)
        requires
            old(self).wf(),
        ensures
            final(self).wf(),
            exists|e: EditorView, r: Result<(), &'static str>| #[trigger]
                editor::replaced(old(self)@.editor, label@, r, e) && out(final(self)@, q) == (
                match r {
                    Ok(_) => done(UiView { editor: e, ..old(self)@ }),
                    Err(problem) => failing(UiView { editor: e, ..old(self)@ }, problem@),
                }),
    {
        proof {
            reveal(Ui::wf);
        }
        let ghost v = self@;
        let r = self.editor.replace_text(label);
        proof {
            assert(editor::replaced(v.editor, label@, r, self.editor@));
            assert(self@ == UiView { editor: self.editor@, ..v });
        }
        match r {
            Ok(_) => Ok(None),
            Err(problem) => Err(problem.to_owned()),
        }
    }

    fn edit_step(&mut self, key: KeyEvent, screen: Option<Screen>) -> (q: Option<Operation>)
        requires
            old(self).wf(),
            usable_screen(screen),
        ensures
            final(self).wf(),
            old(self)@.edited_by(key, screen_of(screen), final(self)@, operation_of(q)),
    {
        proof {
            reveal(UiView::edited_by);
        }
        let result = self.edit_key(key);
        self.finish(result, screen)
    }

    fn fill_step(&mut self, label: &str, screen: Option<Screen>) -> (q: Option<Operation>)
        requires
            old(self).wf(),
            usable_screen(screen),
        ensures
            final(self).wf(),
            old(self)@.filled_by(label@, screen_of(screen), final(self)@, operation_of(q)),
    {
        proof {
            reveal(UiView::filled_by);
        }
        let result = self.fill(label);
        self.finish(result, screen)
    }

    fn choice_step(
        &mut self,
        choice: Choice,
        default: bool,
        r: &Rulings,
        screen: Option<Screen>,
    ) -> (q: Option<Operation>)
        requires
            old(self).wf(),
            usable_screen(screen),
        ensures
            final(self).wf(),
            UiView::finished(
                old(self)@.choosing(choice@, default, r@),
                screen_of(screen),
                final(self)@,
                operation_of(q),
            ),
    {
        let result = self.take_choice(choice, default, r);
        self.finish(result, screen)
    }

    fn select_step(&mut self, n: usize, screen: Option<Screen>) -> (q: Option<Operation>)
        requires
            old(self).wf(),
            n < usize::MAX,
            usable_screen(screen),
        ensures
            final(self).wf(),
            UiView::finished(
                done(UiView { selected: n, ..old(self)@ }),
                screen_of(screen),
                final(self)@,
                operation_of(q),
            ),
    {
        self.set_selected(n);
        self.finish(Ok(None), screen)
    }

    fn tab_key(&mut self, r: &Rulings, screen: Option<Screen>) -> (q: Option<Operation>)
        requires
            old(self).wf(),
            usable_screen(screen),
        ensures
            final(self).wf(),
            old(self)@.tabbed(r@, screen_of(screen), final(self)@, operation_of(q)),
    {
        proof {
            reveal(UiView::tabbed);
        }
        match self.picked() {
            Some((label, choice)) => {
                let route: bool = matches!(choice, Choice::Route(_));
                if route {
                    self.choice_step(choice, false, r, screen)
                } else {
                    self.set_selected(0);
                    self.fill_step(label.as_str(), screen)
                }
            },
            None => self.finish(Ok(None), screen),
        }
    }

    fn accept(&mut self, default: bool, r: &Rulings, screen: Option<Screen>) -> (q: Option<
        Operation,
    >)
        requires
            old(self).wf(),
            usable_screen(screen),
        ensures
            final(self).wf(),
            old(self)@.accepted(default, r@, screen_of(screen), final(self)@, operation_of(q)),
    {
        proof {
            reveal(UiView::accepted);
        }
        match self.picked() {
            Some((_, choice)) => self.choice_step(choice, default, r, screen),
            None => self.finish(Ok(None), screen),
        }
    }

    fn menu_key(&mut self, key: KeyEvent, r: &Rulings, screen: Option<Screen>) -> (q: Option<
        Operation,
    >)
        requires
            old(self).wf(),
            usable_screen(screen),
        ensures
            final(self).wf(),
            old(self)@.menu_keyed(key, r@, screen_of(screen), final(self)@, operation_of(q)),
    {
        proof {
            reveal(UiView::menu_keyed);
            self.law_selected();
        }
        match key.code {
            KeyCode::Tab => self.tab_key(r, screen),
            KeyCode::Up => {
                let n: usize = up(self.selected);
                self.select_step(n, screen)
            },
            KeyCode::Down => {
                let n: usize = down(self.selected, self.indices().len());
                self.select_step(n, screen)
            },
            KeyCode::Enter => self.accept(key.control, r, screen),
            KeyCode::Char(c) => if key.control && (c == 's' || c == 'S') {
                self.accept(key.control, r, screen)
            } else {
                self.set_selected(0);
                self.edit_step(key, screen)
            },
            _ => {
                self.set_selected(0);
                self.edit_step(key, screen)
            },
        }
    }

    /// The selection can always be counted from one.
    proof fn law_selected(&self)
        requires
            self.wf(),
        ensures
            self@.selected < usize::MAX,
    {
        reveal(Ui::wf);
    }

    fn secret_key(&mut self, key: KeyEvent, r: &Rulings) -> (q: Result<Option<Operation>, String>)
        requires
            old(self).wf(),
        ensures
            final(self).wf(),
            out(final(self)@, q) == old(self)@.secret_keyed(key, r@),
    {
        proof {
            reveal(UiView::secret_keyed);
        }
        match key.code {
            KeyCode::Enter => self.submit_secret(r),
            KeyCode::Backspace => {
                self.shorten_secret();
                Ok(None)
            },
            KeyCode::Char(c) => if key.control {
                if c == 'u' || c == 'U' {
                    self.set_secret_blank();
                }
                Ok(None)
            } else if is_control(c) {
                Ok(None)
            } else {
                let mut s = String::new();
                s.push(c);
                proof {
                    assert(s@ =~= seq![c]);
                }
                let result = self.secret_insert(s.as_str());
                wipe(&mut s);
                match result {
                    Ok(_) => Ok(None),
                    Err(problem) => Err(problem),
                }
            },
            _ => Ok(None),
        }
    }

    fn text_key(
        &mut self,
        key: KeyEvent,
        field: Field,
        r: &Rulings,
        screen: Option<Screen>,
    ) -> (q: Option<Operation>)
        requires
            old(self).wf(),
            usable_screen(screen),
        ensures
            final(self).wf(),
            if key.code is Enter {
                UiView::finished(
                    old(self)@.entered(field, r@),
                    screen_of(screen),
                    final(self)@,
                    operation_of(q),
                )
            } else {
                old(self)@.edited_by(key, screen_of(screen), final(self)@, operation_of(q))
            },
    {
        if matches!(key.code, KeyCode::Enter) {
            let result = self.submit_field(field, r);
            self.finish(result, screen)
        } else {
            self.edit_step(key, screen)
        }
    }

    fn stage_key(&mut self, key: KeyEvent, r: &Rulings, screen: Option<Screen>) -> (q: Option<
        Operation,
    >)
        requires
            old(self).wf(),
            usable_screen(screen),
        ensures
            final(self).wf(),
            old(self)@.stage_keyed(key, r@, screen_of(screen), final(self)@, operation_of(q)),
    {
        proof {
            reveal(UiView::stage_keyed);
        }
        let field: Option<Field> = match &self.stage {
            Stage::Menu(_) => {
                return self.menu_key(key, r, screen);
            },
            Stage::Text(field) => Some(*field),
            Stage::Secret => None,
        };
        match field {
            Some(field) => self.text_key(key, field, r, screen),
            None => {
                let result = self.secret_key(key, r);
                self.finish(result, screen)
            },
        }
    }

    /// Acts on a key.
    pub fn key(&mut self, key: KeyEvent, r: &Rulings) -> (q: Option<Operation>)
        requires
            old(self).wf(),
        ensures
            final(self).wf(),
            old(self)@.keyed(key, r@, final(self)@, operation_of(q)),
    {
        proof {
            reveal(UiView::keyed);
        }
        if key.control && key.code == KeyCode::Char('c') {
            self.close();
            return None;
        }
        if matches!(key.code, KeyCode::Escape) {
            return self.go_back(r);
        }
        if self.pending {
            return None;
        }
        if key.control && key.code == KeyCode::Char('e') && self.definition.is_some() {
            let screen = self.screen();
            self.set_secret_blank();
            return self.choice_step(Choice::Connection, false, r, Some(screen));
        }
        let advance: bool = self.advances(key);
        let screen: Option<Screen> = if advance && !(matches!(self.stage, Stage::Secret)
            && self.is_unavailable()) {
            Some(self.screen())
        } else {
            None
        };
        if !advance {
            let empty = String::new();
            proof {
                assert(empty@ =~= Seq::<char>::empty());
            }
            self.set_status(empty);
        }
        self.stage_key(key, r, screen)
    }

    fn advances(&self, key: KeyEvent) -> (r: bool)
        ensures
            r == self@.advances(key),
    {
        if matches!(key.code, KeyCode::Enter) {
            return true;
        }
        if key.control && (key.code == KeyCode::Char('s') || key.code == KeyCode::Char('S')) {
            return true;
        }
        if matches!(key.code, KeyCode::Tab) {
            return match self.picked() {
                Some((_, Choice::Route(_))) => true,
                _ => false,
            };
        }
        false
    }

    fn insert(&mut self, value: &str)
        requires
            old(self).wf(),
        ensures
            final(self).wf(),
            old(self)@.inserted_by(value@, final(self)@),
    {
        proof {
            reveal(Ui::wf);
            reveal(UiView::inserted_by);
        }
        let ghost v = self@;
        let r = self.editor.insert(value);
        proof {
            assert(editor::inserted(v.editor, value@, r, self.editor@));
            assert(self@ == UiView { editor: self.editor@, ..v });
        }
        if let Err(problem) = r {
            self.status = problem.to_owned();
            proof {
                assert(self@ == UiView { editor: self.editor@, status: problem@, ..v });
            }
        }
    }

    /// Acts on a pasted text.
    pub fn paste(&mut self, value: String)
        requires
            old(self).wf(),
        ensures
            final(self).wf(),
            old(self)@.pasted(value@, final(self)@),
    {
        proof {
            reveal(UiView::pasted);
        }
        let mut value = value;
        if self.pending {
            self.set_status(
                "Paste ignored while an operation is pending; wait for completion before entering text.".to_owned(),
            );
        } else {
            let empty = String::new();
            proof {
                assert(empty@ =~= Seq::<char>::empty());
            }
            self.set_status(empty);
            self.set_selected(0);
            if matches!(self.stage, Stage::Secret) {
                let mut part = trim(value.as_str());
                let result = self.secret_insert(part.as_str());
                wipe(&mut part);
                if let Err(problem) = result {
                    self.set_status(problem);
                }
            } else {
                self.insert(value.as_str());
            }
        }
        wipe(&mut value);
    }

    /// What is left to say once setting up is closed.
    pub fn notice(&self) -> (r: String)
        ensures
            r@ == self@.notice(),
    {
        if self.pending && self.mutation {
            "Save pending; reopen setup to observe.".to_owned()
        } else if !self.followup {
            self.status.clone()
        } else {
            let r = String::new();
            proof {
                assert(r@ =~= self@.notice());
            }
            r
        }
    }

    /// What the number of a menu is made from, and nothing else.
    pub fn parts(&self) -> (r: (u64, u64, &str, &str, usize))
        ensures
            r.0 == self@.attempt,
            r.1 == self@.menu_revision,
            r.2@ == self@.title,
            r.3@ == self@.editor.text,
            r.4 == self@.selected,
            (PartsView { attempt: r.0, menu: r.1, title: r.2@, filter: r.3@, selected: r.4 })
                == self@.parts(),
    {
        (
            self.attempt,
            self.menu_revision,
            self.title.as_str(),
            self.editor.text(),
            self.selected,
        )
    }

    fn window(&self, len: usize) -> (r: usize)
        requires
            len == self@.indices().len(),
        ensures
            r == self@.window(),
            r <= self@.selected,
            r <= len,
    {
        let before: usize = self.selected.saturating_sub(128);
        let last: usize = len.saturating_sub(256);
        if before < last {
            before
        } else {
            last
        }
    }

    /// Acts on the pointer, where the menu that was shown is still the one that there is. Its number
    /// is made from [`Ui::parts`], and [`Ui::mouse_at`] says what follows for each number.
    pub fn mouse(&mut self, mouse: MouseEvent, view: &Shown)
        requires
            old(self).wf(),
        ensures
            final(self).wf(),
            exists|revision: u64| final(self)@ == #[trigger] old(self)@.pointed(
                mouse,
                *view,
                revision,
            ),
    {
        let revision: u64 = fingerprint(self.parts());
        self.mouse_at(mouse, view, revision);
    }


    /// Acts on the pointer. `revision` is the number of the menu as it is now.
    pub fn mouse_at(&mut self, mouse: MouseEvent, view: &Shown, revision: u64)
        requires
            old(self).wf(),
        ensures
            final(self).wf(),
            final(self)@ == old(self)@.pointed(mouse, *view, revision),
    {
        proof {
            reveal(UiView::pointed);
            self.law_selected();
        }
        if self.pending || !matches!(self.stage, Stage::Menu(_)) || view.choice_revision
            != revision || !view.choices_area.contains(mouse.column, mouse.row) {
            return;
        }
        let indices = self.indices();
        let len: usize = indices.len();
        match mouse.kind {
            MouseKind::ScrollUp => {
                let n: usize = up(self.selected);
                self.set_selected(n);
            },
            MouseKind::ScrollDown => {
                let n: usize = down(self.selected, len);
                self.set_selected(n);
            },
            MouseKind::LeftDown => {
                if let Some(index) = view.choice_at(mouse.column, mouse.row) {
                    let from: usize = self.window(len);
                    let line: usize = from.saturating_add(index);
                    let last: usize = len.saturating_sub(1);
                    self.set_selected(
                        if line < last {
                            line
                        } else {
                            last
                        },
                    );
                }
            },
            _ => {},
        }
    }

    /// Looks at the key of an integration.
    pub fn open_integration(&mut self, target: Integration) -> (q: Option<Operation>)
        requires
            old(self).wf(),
        ensures
            final(self).wf(),
            out(final(self)@, Ok(q)) == old(self)@.integrating(target@),
    {
        proof {
            reveal(Ui::wf);
            reveal(UiView::integrating);
            lemma_blank_valid();
        }
        let ghost v = self@;
        let ghost t = target@;
        if self.pending && self.mutation {
            self.active = true;
            self.status = "Waiting for the current credential result".to_owned();
            proof {
                assert(self@ == v.integrating(t).ui);
            }
            return None;
        }
        wipe(&mut self.secret);
        self.editor = Editor::default();
        self.back = Vec::new();
        self.definition = None;
        self.candidate = None;
        self.active = true;
        self.attached = true;
        self.followup = true;
        self.mutation = false;
        self.prefix = None;
        self.view = Snapshot::blank();
        self.title = target.title();
        self.status = "Reading current credential status…".to_owned();
        self.stage = Stage::Secret;
        self.credential = None;
        self.integration = Some(target);
        self.pending = true;
        proof {
            assert(screens_of(self.back@) =~= Seq::<ScreenView>::empty());
            assert(self@ == v.integrating(t).ui);
        }
        Some(Operation::ReadIntegration)
    }

    /// Whether the screen is shown.
    pub fn active(&self) -> (r: bool)
        ensures
            r == self@.active,
    {
        self.active
    }

    /// Whether something is asked of others.
    pub fn pending(&self) -> (r: bool)
        ensures
            r == self@.pending,
    {
        self.pending
    }

    /// What was said last.
    pub fn status(&self) -> (r: &str)
        ensures
            r@ == self@.status,
    {
        self.status.as_str()
    }

    /// The title of the screen.
    pub fn title(&self) -> (r: &str)
        ensures
            r@ == self@.title,
    {
        self.title.as_str()
    }

    /// The line of text that is entered.
    pub fn text(&self) -> (r: &str)
        ensures
            r@ == self@.editor.text,
    {
        self.editor.text()
    }

    /// What the screen asks for.
    pub fn stage(&self) -> (r: &Stage)
        ensures
            r@ == self@.stage,
    {
        &self.stage
    }

    /// Whether any of a key is entered.
    pub fn has_secret(&self) -> (r: bool)
        ensures
            r == (self@.secret.len() > 0),
    {
        !self.secret.as_str().is_empty()
    }

    /// Whether the model is saved as the default.
    pub fn saves_default(&self) -> (r: bool)
        ensures
            r == self@.save_default,
    {
        self.save_default
    }

    /// The deployment that is set up.
    pub fn definition(&self) -> (r: Option<&Definition>)
        ensures
            match r {
                Some(d) => self@.definition == Some(d@),
                None => self@.definition is None,
            },
    {
        match &self.definition {
            Some(d) => Some(d),
            None => None,
        }
    }

    /// The model that is set up.
    pub fn candidate(&self) -> (r: Option<&Candidate>)
        ensures
            match r {
                Some(c) => self@.candidate == Some(c@),
                None => self@.candidate is None,
            },
    {
        match &self.candidate {
            Some(c) => Some(c),
            None => None,
        }
    }

    /// The entry that is selected.
    pub fn selected(&self) -> (r: usize)
        ensures
            r == self@.selected,
    {
        self.selected
    }

    /// Takes the model that was chosen, if one was.
    pub fn take_chosen(&mut self) -> (r: Option<Selection>)
        requires
            old(self).wf(),
        ensures
            final(self).wf(),
            selection_of(r) == old(self)@.chosen,
            final(self)@ == (UiView { chosen: None, ..old(self)@ }),
    {
        let ghost u_v = *self;
        let ghost v = self@;
        let mut r: Option<Selection> = None;
        std::mem::swap(&mut r, &mut self.chosen);
        proof {
            lemma_kept(u_v, *self);
            assert(self@ == UiView { chosen: None, ..v });
        }
        r
    }

    /// What is asked of others about the text that is entered: the trimmed text, and where models
    /// would be looked for with it.
    pub fn entered_value(&self) -> (r: String)
        ensures
            r@ == text::trimmed(self@.editor.text),
    {
        trim(self.editor.text())
    }
}

/// What came back, as texts.
pub open spec fn reply_of(reply: Result<Update, String>) -> Result<UpdateView, Seq<char>> {
    match reply {
        Ok(update) => Ok(update@),
        Err(e) => Err(e@),
    }
}

fn refresh_items() -> (items: Vec<(String, Choice)>)
    ensures
        entries_of(items@) == UiView::refreshing(),
{
    let mut items: Vec<(String, Choice)> = Vec::new();
    items.push(("Refresh configuration…".to_owned(), Choice::Refresh));
    proof {
        assert(entries_of(items@) =~= UiView::refreshing());
    }
    items
}

impl Ui {
    fn integrated(&mut self, reply: Result<Update, String>)
        requires
            old(self).wf(),
            old(self)@.integration is Some,
        ensures
            final(self).wf(),
            final(self)@ == old(self)@.integrated(reply_of(reply)),
    {
        proof {
            reveal(UiView::integrated);
        }
        let ghost u_v = *self;
        let ghost v = self@;
        let ghost answer = reply_of(reply);
        self.pending = false;
        self.mutation = false;
        match reply {
            Ok(Update::IntegrationCredential { status, saved }) => {
                self.credential = status;
                self.status = if saved {
                    match &self.integration {
                        Some(target) => target.saved().to_owned(),
                        None => String::new(),
                    }
                } else {
                    "Enter a key and press Enter to save. Esc returns to Plugins.".to_owned()
                };
            },
            Err(problem) => {
                self.credential = None;
                self.status = cat3(
                    "Credential: ",
                    problem.as_str(),
                    ". Close and reopen this screen to reconcile before another write.",
                );
            },
            Ok(_) => {
                self.status =
                "Credential response changed; close and reopen this screen".to_owned();
            },
        }
        proof {
            lemma_kept(u_v, *self);
            assert(self@ == v.integrated(answer));
        }
    }

    fn settle(&mut self, reply: Result<Update, String>)
        requires
            old(self).wf(),
        ensures
            final(self).wf(),
            final(self)@ == old(self)@.settled(reply_of(reply)),
    {
        proof {
            reveal(UiView::settled);
        }
        self.reconcile();
        let status: String = match reply {
            Ok(_) =>
                "Setup operation completed. Refresh to continue; no follow-up was started.".to_owned(),
            Err(problem) => cat3(
                "Setup operation: ",
                problem.as_str(),
                ". Refresh before another write.",
            ),
        };
        let again = status.clone();
        self.set_status(status);
        if self.active {
            self.menu("Setup result", refresh_items());
            self.set_status(again);
        }
    }

    fn fail(&mut self, was_mutation: bool, problem: String)
        requires
            old(self).wf(),
        ensures
            final(self).wf(),
            final(self)@ == old(self)@.failed(was_mutation, problem@),
    {
        proof {
            reveal(UiView::failed);
        }
        let prefix = clone_optional(&self.prefix);
        let ghost p = self@.prefix;
        if was_mutation {
            self.reconcile();
            self.menu("Setup write requires reconciliation", refresh_items());
        } else if self.definition.is_some() {
            let models: Vec<Candidate> = Vec::new();
            proof {
                assert(candidates_of(models@) =~= Seq::<CandidateView>::empty());
            }
            self.discovery_menu(models);
        } else {
            self.menu("Setup unavailable", refresh_items());
        }
        let ghost u_v = *self;
        let ghost v = self@;
        self.status = cat2(problem.as_str(), ". Esc back · Ctrl+C close");
        self.prefix = prefix;
        proof {
            lemma_kept(u_v, *self);
            assert(self@ == UiView {
                status: problem@ + ". Esc back · Ctrl+C close"@,
                prefix: p,
                ..v
            });
        }
    }

    fn route_items(routes: &Vec<ModelRef>) -> (items: Vec<(String, Choice)>)
        ensures
            entries_of(items@) == UiView::route_entries(routes_of(routes@)),
    {
        let ghost list = routes_of(routes@);
        let ghost entries = UiView::route_entries(list);
        let mut items: Vec<(String, Choice)> = Vec::new();
        let mut i: usize = 0;
        while i < routes.len()
            invariant
                i <= routes@.len(),
                list == routes_of(routes@),
                entries == UiView::route_entries(list),
                entries_of(items@) == entries.take(i as int),
            decreases routes@.len() - i,
        {
            let ghost before = entries_of(items@);
            let label = cat3(routes[i].deployment.as_str(), "/", routes[i].model.as_str());
            proof {
                assert(list[i as int] == routes@[i as int]@);
            }
            items.push((label, Choice::Route(routes[i].clone())));
            proof {
                assert(entries_of(items@) =~= before.push(entries[i as int]));
                assert(entries.take(i as int + 1) =~= before.push(entries[i as int]));
            }
            i += 1;
        }
        proof {
            assert(entries.take(i as int) =~= entries);
        }
        items
    }

    fn provider_items(providers: &Vec<Definition>) -> (items: Vec<(String, Choice)>)
        ensures
            entries_of(items@) == UiView::provider_entries(definitions_of(providers@)),
    {
        let ghost list = definitions_of(providers@);
        let ghost entries = UiView::provider_entries(list);
        let mut items: Vec<(String, Choice)> = Vec::new();
        let mut i: usize = 0;
        while i < providers.len()
            invariant
                i <= providers@.len(),
                list == definitions_of(providers@),
                entries == UiView::provider_entries(list),
                entries_of(items@) == entries.take(i as int),
            decreases providers@.len() - i,
        {
            let ghost before = entries_of(items@);
            let label: String = match &providers[i].deployment {
                Some(s) => cat2("Discover / refresh · ", s.as_str()),
                None => cat2("Discover / refresh · ", "provider"),
            };
            proof {
                assert(list[i as int] == providers@[i as int]@);
            }
            items.push((label, Choice::DiscoverExisting(providers[i].clone())));
            proof {
                assert(entries_of(items@) =~= before.push(entries[i as int]));
                assert(entries.take(i as int + 1) =~= before.push(entries[i as int]));
            }
            i += 1;
        }
        proof {
            assert(entries.take(i as int) =~= entries);
        }
        items
    }

    fn routes(&mut self, routes: Vec<ModelRef>)
        requires
            old(self).wf(),
        ensures
            final(self).wf(),
            final(self)@ == old(self)@.routed(routes_of(routes@)),
    {
        proof {
            reveal(UiView::routed);
        }
        let ghost v = self@;
        let ghost list = routes_of(routes@);
        let ghost providers = if v.view.providers is Some {
            v.view.providers->0
        } else {
            seq![]
        };
        let mut items = Ui::route_items(&routes);
        let mut more: Vec<(String, Choice)> = match &self.view.providers {
            Some(p) => Ui::provider_items(p),
            None => {
                let none: Vec<(String, Choice)> = Vec::new();
                proof {
                    assert(entries_of(none@) =~= UiView::provider_entries(seq![]));
                }
                none
            },
        };
        let ghost a = entries_of(items@);
        let ghost b = entries_of(more@);
        items.append(&mut more);
        items.push(("Log in / add provider…".to_owned(), Choice::Login));
        proof {
            assert(entries_of(items@) =~= a + b.push(
                ("Log in / add provider…"@, ChoiceView::Login),
            ));
        }
        let title: &str = if self.attached {
            "Model for next request"
        } else {
            "Set default and start"
        };
        self.menu(title, items);
        let ghost u_m = *self;
        let ghost m = self@;
        self.prefix = Some("/model ".to_owned());
        proof {
            lemma_kept(u_m, *self);
            assert(self@ == UiView { prefix: Some("/model "@), ..m });
        }
    }

    fn login_menu(&mut self)
        requires
            old(self).wf(),
        ensures
            final(self).wf(),
            final(self)@ == old(self)@.menu(
                "Log in · choose provider"@,
                UiView::provider_choices(),
            ),
    {
        let mut items: Vec<(String, Choice)> = Vec::new();
        items.push(("DeepSeek".to_owned(), Choice::Provider(ProviderKind::Deepseek)));
        items.push(("OpenAI".to_owned(), Choice::Provider(ProviderKind::Openai)));
        items.push(
            ("OpenAI-compatible".to_owned(), Choice::Provider(ProviderKind::OpenaiCompatible)),
        );
        proof {
            assert(entries_of(items@) =~= UiView::provider_choices());
        }
        self.menu("Log in · choose provider", items);
    }

    fn note_routes(&mut self, routes: &Vec<ModelRef>)
        requires
            old(self).wf(),
        ensures
            final(self).wf(),
            final(self)@ == old(self)@.noted(routes_of(routes@)),
    {
        let ghost u_v = *self;
        let ghost v = self@;
        let ghost list = routes_of(routes@);
        let ghost names = Seq::new(list.len(), |i: int| list[i].deployment);
        let mut deployments: Vec<String> = Vec::new();
        let mut i: usize = 0;
        while i < routes.len()
            invariant
                i <= routes@.len(),
                list == routes_of(routes@),
                names == Seq::new(list.len(), |i: int| list[i].deployment),
                text::views(deployments@) == names.take(i as int),
            decreases routes@.len() - i,
        {
            let ghost before = text::views(deployments@);
            deployments.push(routes[i].deployment.clone());
            proof {
                assert(list[i as int] == routes@[i as int]@);
                assert(text::views(deployments@) =~= before.push(names[i as int]));
                assert(names.take(i as int + 1) =~= before.push(names[i as int]));
            }
            i += 1;
        }
        proof {
            assert(names.take(i as int) =~= names);
        }
        self.deployments = deployments;
        self.status = if self.view.allowed {
            "Enter selects · Esc cancels".to_owned()
        } else {
            "Configuration access is read only".to_owned()
        };
        proof {
            lemma_kept(u_v, *self);
            assert(self@ == v.noted(list));
        }
    }

    fn opened(&mut self, o: Opening, routes: Vec<ModelRef>, r: &Rulings) -> (q: Option<Operation>)
        requires
            old(self).wf(),
        ensures
            final(self).wf(),
            out(final(self)@, Ok(q)) == old(self)@.opened(o, routes_of(routes@), r@),
    {
        proof {
            reveal(UiView::opened);
        }
        self.note_routes(&routes);
        match o {
            Opening::Login(Some(provider)) => self.log_in(provider, r),
            Opening::Login(None) => {
                self.login_menu();
                None
            },
            Opening::Effort => {
                let model: Option<ModelRef> = match &self.effort_selection {
                    Some(s) => Some(s.model.clone()),
                    None => None,
                };
                match model {
                    Some(model) => Some(self.describe_efforts(model)),
                    None => {
                        self.set_status("Choose a model with /model first".to_owned());
                        None
                    },
                }
            },
            Opening::Models => {
                self.routes(routes);
                None
            },
            Opening::Other => {
                self.set_status(
                    "Usage: /login [deepseek|openai|openai-compatible] or /model. Enter keys only in the masked field.".to_owned(),
                );
                None
            },
        }
    }

    fn effort_items(model: &ModelRef, supported: &Vec<String>, default: &Option<String>) -> (items:
        Vec<(String, Choice)>)
        ensures
            entries_of(items@) == UiView::effort_choices(
                model@,
                text::views(supported@),
                scene::optional(*default),
            ),
    {
        let ghost all = UiView::effort_choices(
            model@,
            text::views(supported@),
            scene::optional(*default),
        );
        let label: String = match default {
            Some(e) => cat3("Provider default (", e.as_str(), ")"),
            None => "Provider default".to_owned(),
        };
        let mut items: Vec<(String, Choice)> = Vec::new();
        items.push((label, Choice::Effort(Selection { model: model.clone(), effort: None })));
        proof {
            assert(entries_of(items@) =~= all.take(1));
        }
        let mut i: usize = 0;
        while i < supported.len()
            invariant
                i <= supported@.len(),
                all == UiView::effort_choices(
                    model@,
                    text::views(supported@),
                    scene::optional(*default),
                ),
                items@.len() == i + 1,
                entries_of(items@) == all.take(i as int + 1),
            decreases supported@.len() - i,
        {
            let ghost before = entries_of(items@);
            items.push(
                (
                    supported[i].clone(),
                    Choice::Effort(
                        Selection { model: model.clone(), effort: Some(supported[i].clone()) },
                    ),
                ),
            );
            proof {
                assert(text::views(supported@)[i as int] == supported@[i as int]@);
                assert(entries_of(items@) =~= before.push(all[i as int + 1]));
                assert(all.take(i as int + 2) =~= before.push(all[i as int + 1]));
            }
            i += 1;
        }
        proof {
            assert(all.take(i as int + 1) =~= all);
        }
        items
    }

    fn position(items: &Vec<(String, Choice)>, current: &Selection) -> (r: Option<usize>)
        ensures
            match r {
                Some(i) => UiView::position(entries_of(items@), current@, items@.len() as int)
                    == Some(i as int) && i < items@.len(),
                None => UiView::position(entries_of(items@), current@, items@.len() as int) is None,
            },
    {
        let mut found: Option<usize> = None;
        let mut i: usize = 0;
        while i < items.len()
            invariant
                i <= items@.len(),
                match found {
                    Some(k) => UiView::position(entries_of(items@), current@, i as int) == Some(
                        k as int,
                    ) && k < i,
                    None => UiView::position(entries_of(items@), current@, i as int) is None,
                },
            decreases items@.len() - i,
        {
            if found.is_none() {
                if let Choice::Effort(s) = &items[i].1 {
                    if s.is(current) {
                        found = Some(i);
                    }
                }
            }
            i += 1;
        }
        found
    }

    fn effort_menu(&mut self, model: ModelRef, supported: Vec<String>, default: Option<String>)
        requires
            old(self).wf(),
        ensures
            final(self).wf(),
            final(self)@ == old(self)@.effort_menu(
                model@,
                text::views(supported@),
                scene::optional(default),
            ),
    {
        proof {
            reveal(UiView::effort_menu);
        }
        let ghost v = self@;
        let prefix: String = if self.effort_selection.is_some() {
            "/effort ".to_owned()
        } else {
            cat3("/model ", model.model.as_str(), " ")
        };
        let ghost p = prefix@;
        let items = Ui::effort_items(&model, &supported, &default);
        let total: usize = items.len();
        let selected: usize = match &self.effort_selection {
            Some(current) => match Ui::position(&items, current) {
                Some(i) => i,
                None => 0,
            },
            None => 0,
        };
        proof {
            assert(total > 0 ==> selected < total);
            assert(selected < usize::MAX);
        }
        self.menu("Reasoning effort", items);
        let ghost u_m = *self;
        let ghost m = self@;
        self.prefix = Some(prefix);
        proof {
            lemma_kept(u_m, *self);
            assert(self@ == UiView { prefix: Some(p), ..m });
        }
        self.set_selected(selected);
    }

    fn credential_screen(&mut self)
        requires
            old(self).wf(),
        ensures
            final(self).wf(),
            final(self)@ == old(self)@.credential_screen(),
    {
        proof {
            reveal(Ui::wf);
            reveal(UiView::credential_screen);
        }
        let ghost v = self@;
        let credential: Option<CredentialStatus> = match &self.view.credential {
            Some((provider, slot, status)) => match &self.definition {
                Some(d) => match &d.slot {
                    Some(s) => if *provider == d.provider && same(s.as_str(), slot.as_str()) {
                        Some(status.clone())
                    } else {
                        None
                    },
                    None => None,
                },
                None => None,
            },
            None => None,
        };
        self.credential = credential;
        self.status = String::new();
        self.stage = Stage::Secret;
        self.prefix = None;
        self.title = "API key · masked".to_owned();
        self.editor = Editor::default();
        proof {
            assert(self.status@ =~= Seq::<char>::empty());
            assert(credential_of(self.credential) == v.matching_credential());
            assert(self@ == v.credential_screen());
        }
    }

    fn note_credential(&mut self)
        requires
            old(self).wf(),
        ensures
            final(self).wf(),
            final(self)@ == old(self)@.credential_noted(),
    {
        let ghost u_v = *self;
        let ghost v = self@;
        self.credential = match &self.view.credential {
            Some((_, _, status)) => Some(status.clone()),
            None => None,
        };
        self.status = String::new();
        proof {
            lemma_kept(u_v, *self);
            assert(self.status@ =~= Seq::<char>::empty());
            assert(self@ == v.credential_noted());
        }
    }

    fn select(&mut self, s: Selection)
        requires
            old(self).wf(),
        ensures
            final(self).wf(),
            final(self)@ == (UiView {
                active: false,
                chosen: Some(s@),
                status: seq![],
                ..old(self)@
            }),
    {
        let ghost u_v = *self;
        let ghost v = self@;
        let ghost sv = s@;
        self.active = false;
        self.chosen = Some(s);
        self.status = String::new();
        proof {
            lemma_kept(u_v, *self);
            assert(self.status@ =~= Seq::<char>::empty());
            assert(self@ == UiView { active: false, chosen: Some(sv), status: seq![], ..v });
        }
    }

    fn update(&mut self, update: Update, r: &Rulings) -> (q: Option<Operation>)
        requires
            old(self).wf(),
        ensures
            final(self).wf(),
            out(final(self)@, Ok(q)) == old(self)@.updated(update@, r@),
    {
        proof {
            reveal(UiView::updated);
        }
        match update {
            Update::IntegrationCredential { .. } => {
                self.set_status("Integration credential screen is no longer active".to_owned());
                None
            },
            Update::Open(o, routes) => self.opened(o, routes, r),
            Update::CredentialStatus => {
                self.credential_screen();
                None
            },
            Update::Credential => {
                self.note_credential();
                self.discover(r)
            },
            Update::Discovered(models) => {
                self.discovery_menu(models);
                None
            },
            Update::Saved(model) => Some(self.describe_efforts(model)),
            Update::Efforts { model, supported, default } => {
                self.effort_menu(model, supported, default);
                None
            },
            Update::Selected(s) => {
                self.select(s);
                None
            },
        }
    }

    fn receive(&mut self, snapshot: Snapshot)
        requires
            old(self).wf(),
        ensures
            final(self).wf(),
            final(self)@ == (UiView {
                pending: false,
                mutation: false,
                view: if old(self)@.feature {
                    snapshot@
                } else {
                    old(self)@.view
                },
                ..old(self)@
            }),
    {
        let ghost u_v = *self;
        let ghost v = self@;
        let ghost s = snapshot@;
        self.pending = false;
        self.mutation = false;
        if self.feature {
            self.view = snapshot;
        }
        proof {
            lemma_kept(u_v, *self);
            assert(self@ == UiView {
                pending: false,
                mutation: false,
                view: if v.feature {
                    s
                } else {
                    v.view
                },
                ..v
            });
        }
    }

    /// Takes in what came of an operation, with the configuration as it is afterwards.
    pub fn next(&mut self, reply: Result<Update, String>, snapshot: Snapshot, r: &Rulings) -> (q:
        Option<Operation>)
        requires
            old(self).wf(),
        ensures
            final(self).wf(),
            out(final(self)@, Ok(q)) == old(self)@.replied(reply_of(reply), snapshot@, r@),
    {
        proof {
            reveal(UiView::replied);
        }
        if self.integration.is_some() {
            self.integrated(reply);
            return None;
        }
        let was_mutation: bool = self.mutation;
        self.receive(snapshot);
        if !self.followup {
            self.settle(reply);
            return None;
        }
        match reply {
            Err(problem) => {
                self.fail(was_mutation, problem);
                None
            },
            Ok(update) => self.update(update, r),
        }
    }
}

impl Ui {
    fn credential_text(&self) -> (r: String)
        ensures
            r@ == self@.credential_text(),
    {
        match &self.credential {
            None => "Checking credential…".to_owned(),
            Some(c) => {
                let s: String = match &c.availability {
                    Availability::Missing => "Missing credential · enter key".to_owned(),
                    Availability::Unavailable { failure, reason } => {
                        let advice: &str = match failure {
                            StoreFailure::Permissions =>
                                "Check ownership; the directory needs mode 0700 and the file needs 0600.",
                            StoreFailure::Corrupt =>
                                "Repair the credential JSON; the original file has been preserved.",
                            StoreFailure::UnsafePath =>
                                "Use an owned directory and regular file without links.",
                            StoreFailure::Other =>
                                "Resolve the file problem before saving or using this credential.",
                        };
                        cat4(reason.as_str(), ".\n", advice, "\nEnter retries; Esc returns.")
                    },
                    Availability::Configured { variable } => if variable.is_some() {
                        "Environment key · Enter reuses; typing saves a replacement".to_owned()
                    } else if c.editable {
                        "Saved key · Enter reuses; typing replaces".to_owned()
                    } else {
                        "Saved key · Enter reuses (read only)".to_owned()
                    },
                };
                match &c.store_path {
                    Some(path) => cat3(s.as_str(), "\nSaves on Host: ", path.as_str()),
                    None => s,
                }
            },
        }
    }

    fn integration_text(&self) -> (r: String)
        ensures
            r@ == self@.integration_text(),
    {
        match &self.credential {
            Some(c) => if c.editable {
                let configured: bool = match &c.availability {
                    Availability::Configured { .. } => true,
                    _ => false,
                };
                cat2(
                    if configured {
                        "Credential configured"
                    } else {
                        "Credential missing"
                    },
                    " · enter a nonempty key to save; tool settings are separate",
                )
            } else {
                "Credential is read only or unavailable; close and reopen to refresh status".to_owned()
            },
            None => if self.pending {
                "Reading or saving the selected credential…".to_owned()
            } else {
                "Credential status needs an explicit refresh; close and reopen this screen".to_owned()
            },
        }
    }

    fn shown_items(&self, indices: &Vec<usize>, from: usize) -> (r: Vec<String>)
        requires
            indices@ == self@.indices(),
            forall|i: int| 0 <= i < indices@.len() ==> (#[trigger] indices@[i])
                < self@.items().len(),
            from == self@.window(),
            from <= indices@.len(),
        ensures
            text::views(r@) == self@.shown_items(),
    {
        let mut out: Vec<String> = Vec::new();
        let total: usize = indices.len();
        let left: usize = total - from;
        let count: usize = if left < 256 {
            left
        } else {
            256
        };
        let ghost all = self@.shown_items();
        if let Stage::Menu(items) = &self.stage {
            let mut i: usize = 0;
            while i < count
                invariant
                    i <= count,
                    from + count <= total,
                    total == indices@.len(),
                    indices@ == self@.indices(),
                    forall|i: int| 0 <= i < indices@.len() ==> (#[trigger] indices@[i])
                        < self@.items().len(),
                    from == self@.window(),
                    self@.items() == entries_of(items@),
                    all == self@.shown_items(),
                    all.len() == count,
                    text::views(out@) == all.take(i as int),
                decreases count - i,
            {
                let ghost before = text::views(out@);
                let index: usize = indices[from + i];
                let label = items[index].0.clone();
                proof {
                    assert(self@.items()[index as int].0 == items@[index as int].0@);
                }
                out.push(label);
                proof {
                    assert(text::views(out@) =~= before.push(all[i as int]));
                    assert(all.take(i as int + 1) =~= before.push(all[i as int]));
                }
                i += 1;
            }
            proof {
                assert(all.take(count as int) =~= all);
            }
        } else {
            proof {
                assert(self@.items().len() == 0);
                assert(indices@.len() == 0) by {
                    if indices@.len() > 0 {
                        assert(indices@[0] < self@.items().len());
                    }
                }
                assert(text::views(out@) =~= all);
            }
        }
        out
    }

    fn shown_title(&self, len: usize) -> (r: String)
        requires
            len == self@.indices().len(),
            self@.selected < usize::MAX,
        ensures
            r@ == self@.shown_title(),
    {
        if self.prefix.is_some() {
            let total = decimal(len as u64);
            if len > 8 {
                let at = decimal((self.selected + 1) as u64);
                cat5(self.title.as_str(), " · ", at.as_str(), "/", total.as_str())
            } else {
                cat3(self.title.as_str(), " · ", total.as_str())
            }
        } else {
            self.title.clone()
        }
    }

    fn shown_explanation(&self) -> (r: String)
        ensures
            r@ == self@.shown_explanation(),
    {
        proof {
            reveal_strlit("");
            assert(""@ =~= Seq::<char>::empty());
        }
        let summary: String = match &self.definition {
            Some(d) => {
                let deployment: &str = match &d.deployment {
                    Some(s) => s.as_str(),
                    None => "",
                };
                let endpoint: &str = match &d.endpoint {
                    Some(s) => s.as_str(),
                    None => "",
                };
                cat3(deployment, " · ", endpoint)
            },
            None => "".to_owned(),
        };
        match &self.credential {
            Some(c) => match &c.availability {
                Availability::Configured { variable } => match variable {
                    Some(variable) => cat3(summary.as_str(), " · ", variable.as_str()),
                    None => summary,
                },
                _ => summary,
            },
            None => summary,
        }
    }

    fn shown_input(&self) -> (r: Draft)
        ensures
            r@ == self@.shown_input(),
    {
        if matches!(self.stage, Stage::Secret) {
            if self.secret.as_str().is_empty() {
                let r = Draft { text: String::new(), cursor: 0 };
                proof {
                    assert(r.text@ =~= Seq::<char>::empty());
                    assert(r@ =~= self@.shown_input());
                }
                r
            } else {
                Draft { text: "••••••••".to_owned(), cursor: 24 }
            }
        } else {
            Draft::capture(&self.editor)
        }
    }

    fn shown_receipts(&self) -> (r: Vec<String>)
        ensures
            text::views(r@) == self@.shown_receipts(),
    {
        let ghost all = self@.shown_receipts();
        let mut out: Vec<String> = Vec::new();
        let mut i: usize = 0;
        while i < self.view.receipts.len()
            invariant
                i <= self.view.receipts@.len(),
                all == self@.shown_receipts(),
                text::views(out@) == all.take(i as int),
            decreases self.view.receipts@.len() - i,
        {
            let ghost before = text::views(out@);
            let line = cat3(
                self.view.receipts[i].0.as_str(),
                ": ",
                self.view.receipts[i].1.as_str(),
            );
            proof {
                assert(self@.view.receipts[i as int] == (
                    self.view.receipts@[i as int].0@,
                    self.view.receipts@[i as int].1@,
                ));
            }
            out.push(line);
            proof {
                assert(text::views(out@) =~= before.push(all[i as int]));
                assert(all.take(i as int + 1) =~= before.push(all[i as int]));
            }
            i += 1;
        }
        proof {
            assert(all.take(i as int) =~= all);
        }
        out
    }

    fn shown_hint(&self) -> (r: &'static str)
        ensures
            r@ == self@.shown_hint(),
    {
        match &self.stage {
            Stage::Secret => if self.integration.is_some() {
                "Enter save · Esc returns to Plugins · Ctrl+C close"
            } else if self.is_unavailable() {
                "Enter retry · Esc back · Ctrl+C close"
            } else {
                "Enter continue · Esc back · Ctrl+E edit"
            },
            Stage::Menu(_) => "Enter select · ^S default · Esc back",
            Stage::Text(_) => "Enter next · Esc back · ^C close",
        }
    }

    fn shown_progress(&self) -> (r: Option<String>)
        ensures
            scene::optional(r) == self@.shown_progress(),
    {
        if self.pending {
            let attempt = decimal(self.attempt);
            Some(
                cat3(
                    if self.mutation {
                        "Saving; Ctrl+C closes while result is retained"
                    } else {
                        "Loading…"
                    },
                    " · attempt ",
                    attempt.as_str(),
                ),
            )
        } else {
            None
        }
    }

    fn shown_field(&self) -> (r: Option<String>)
        ensures
            scene::optional(r) == self@.shown_field(),
    {
        match &self.stage {
            Stage::Secret => if self.is_editable() {
                Some("API key".to_owned())
            } else {
                None
            },
            Stage::Menu(_) => Some("Filter choices".to_owned()),
            Stage::Text(_) => {
                let empty = String::new();
                proof {
                    assert(empty@ =~= Seq::<char>::empty());
                }
                Some(empty)
            },
        }
    }

    /// The screen as it is, under a number that is made from [`Ui::parts`].
    pub fn scene(&self) -> (r: Scene)
        requires
            self.wf(),
        ensures
            r@ == self@.pictured(r.revision),
    {
        self.scene_at(fingerprint(self.parts()))
    }


    /// The screen. `revision` is the number of the menu as it is now.
    pub fn scene_at(&self, revision: u64) -> (r: Scene)
        requires
            self.wf(),
        ensures
            r@ == self@.pictured(revision),
    {
        proof {
            self.law_selected();
        }
        let indices = self.indices();
        let len: usize = indices.len();
        let from: usize = self.window(len);
        let items = self.shown_items(&indices, from);
        let r = Scene {
            revision,
            title: self.shown_title(len),
            explanation: self.shown_explanation(),
            status: self.status.clone(),
            items,
            selected: self.selected - from,
            detail: if matches!(self.stage, Stage::Secret) {
                Some(
                    if self.integration.is_some() {
                        self.integration_text()
                    } else {
                        self.credential_text()
                    },
                )
            } else {
                None
            },
            detail_offset: 0,
            field: self.shown_field(),
            input: self.shown_input(),
            hint: self.shown_hint().to_owned(),
            progress: self.shown_progress(),
            receipts: self.shown_receipts(),
            composer_prefix: clone_optional(&self.prefix),
        };
        proof {
            assert(r@ =~= self@.pictured(revision));
        }
        r
    }
}

/// A screen tells nothing of a key but whether there is any of it: neither what it is nor how
/// long. Nor is its number made from anything of a key.
pub proof fn law_secret_not_shown(a: UiView, secret: Seq<char>, revision: u64)
    requires
        a.secret.len() > 0,
        secret.len() > 0,
    ensures
        (UiView { secret, ..a }).pictured(revision) == a.pictured(revision),
        (UiView { secret, ..a }).parts() == a.parts(),
{
    let b = UiView { secret, ..a };
    reveal(UiView::indices);
    assert(b.indices() == a.indices());
    assert(b.shown_items() =~= a.shown_items());
    assert(b.shown_receipts() =~= a.shown_receipts());
    assert(b.pictured(revision) =~= a.pictured(revision));
}

/// Going back and closing leave nothing of a key.
pub proof fn law_back_forgets_secret(v: UiView, r: RulingsView)
    ensures
        v.closed().secret.len() == 0,
        v.backed(r).ui.secret.len() == 0,
{
    reveal(UiView::backed);
    reveal(UiView::credentials);
}

/// A change that was being made when setting up was closed is told when it comes back, and
/// nothing follows it: nothing is asked of others, and nothing is chosen.
pub proof fn law_closed_write_has_no_followup(
    v: UiView,
    reply: Result<UpdateView, Seq<char>>,
    snapshot: SnapshotView,
    r: RulingsView,
)
    requires
        v.integration is None,
    ensures
        ({
            let o = v.closed().replied(reply, snapshot, r);
            &&& o.op is None
            &&& o.ui.chosen is None
            &&& o.ui.definition is None
            &&& !o.ui.pending
            &&& o.ui.notice() == o.ui.status
            &&& o.ui.status.len() > 0
        }),
{
    reveal(UiView::replied);
    reveal(UiView::settled);
    reveal_strlit(
        "Setup operation completed. Refresh to continue; no follow-up was started.",
    );
    reveal_strlit("Setup operation: ");
}

/// A write that failed leaves one way on: to read the configuration again. What was being set up
/// is forgotten.
pub proof fn law_failed_write_requires_refresh(v: UiView, problem: Seq<char>)
    ensures
        v.failed(true, problem).stage == StageView::Menu(UiView::refreshing()),
        v.failed(true, problem).definition is None,
        v.failed(true, problem).back.len() == 0,
{
    reveal(UiView::failed);
}

/// While a change is being made, opening setting up again asks for nothing and keeps waiting.
pub proof fn law_write_is_not_replaced(v: UiView, o: Opening, attached: bool)
    requires
        v.pending,
        v.mutation,
    ensures
        v.opening(o, attached).op is None,
        v.opening(o, attached).ui.pending,
        v.opening(o, attached).ui.mutation,
{
    reveal(UiView::opening);
}

/// A menu that replaces another, and a screen that comes back, have numbers that are made from other
/// parts.
pub proof fn law_replaced_menu_has_other_parts(
    v: UiView,
    title: Seq<char>,
    items: Seq<(Seq<char>, ChoiceView)>,
    s: ScreenView,
)
    ensures
        v.menu(title, items).parts() != v.parts(),
        v.restored(s).parts() != v.parts(),
{
    assert(v.menu(title, items).parts().menu != v.parts().menu);
    assert(v.restored(s).parts().menu != v.parts().menu);
}

/// A menu that replaced another does not act on a pointer that was aimed at the old one.
pub proof fn law_stale_menu(v: UiView, mouse: MouseEvent, view: Shown, revision: u64)
    requires
        view.choice_revision != revision,
    ensures
        v.pointed(mouse, view, revision) == v,
{
    reveal(UiView::pointed);
}

/// Asking for the efforts of a model neither chooses it nor changes anything.
pub proof fn law_effort_is_asked_first(v: UiView, m: ModelRefView, default: bool, r: RulingsView)
    ensures
        ({
            let o = v.choosing(ChoiceView::Route(m), default, r);
            &&& o.ui.chosen == v.chosen
            &&& o.op == Some(OperationView::Describe(m))
            &&& !o.ui.mutation
        }),
{
    reveal(UiView::choosing);
    reveal(UiView::following);
    reveal(UiView::describing);
}


} // verus!
