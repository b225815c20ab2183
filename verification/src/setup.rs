//! The commands of the application itself, and what setting up a model deals with.
use vstd::prelude::*;
use vstd::string::*;
use crate::scene;
use crate::scene::clone_optional;
use crate::text;
use crate::text::{contains_char, same, split_words};

verus! {

/// The providers that can be set up.
#[derive(Clone, Copy, Debug, PartialEq, Eq, Structural)]
pub enum ProviderKind {
    Deepseek,
    Openai,
    OpenaiCompatible,
}

/// A command that the application runs itself.
#[derive(Debug)]
pub enum Command {
    Login(Option<ProviderKind>),
    Models,
    Effort,
    Help,
    Plugins,
    New,
    Resume(Option<String>),
    Reference(Option<String>),
    Quit,
    Invalid,
}

/// What a [`Command`] says.
pub enum CommandView {
    Login(Option<ProviderKind>),
    Models,
    Effort,
    Help,
    Plugins,
    New,
    Resume(Option<Seq<char>>),
    Reference(Option<Seq<char>>),
    Quit,
    Invalid,
}

impl View for Command {
    type V = CommandView;

    open spec fn view(&self) -> CommandView {
        match self {
            Command::Login(provider) => CommandView::Login(*provider),
            Command::Models => CommandView::Models,
            Command::Effort => CommandView::Effort,
            Command::Help => CommandView::Help,
            Command::Plugins => CommandView::Plugins,
            Command::New => CommandView::New,
            Command::Resume(id) => CommandView::Resume(scene::optional(*id)),
            Command::Reference(id) => CommandView::Reference(scene::optional(*id)),
            Command::Quit => CommandView::Quit,
            Command::Invalid => CommandView::Invalid,
        }
    }
}

/// The provider that a word names.
pub open spec fn provider_named(word: Seq<char>) -> Option<ProviderKind> {
    if word == "deepseek"@ {
        Some(ProviderKind::Deepseek)
    } else if word == "openai"@ {
        Some(ProviderKind::Openai)
    } else if word == "openai-compatible"@ {
        Some(ProviderKind::OpenaiCompatible)
    } else {
        None
    }
}

/// Whether a word is the name of a command of the application.
pub open spec fn command_word(word: Seq<char>) -> bool {
    word == "/effort"@ || word == "/model"@ || word == "/login"@ || word == "/help"@ || word
        == "/new"@ || word == "/quit"@ || word == "/exit"@ || word == "/resume"@ || word
        == "/reference"@ || word == "/plugins"@
}

/// The command that a text is, if it is one. `valid` says whether the second word names a
/// conversation.
pub open spec fn commanded(s: Seq<char>, valid: bool) -> Option<CommandView> {
    let words = text::words(s);
    if s.contains('\r') || s.contains('\n') || words.len() == 0 || !command_word(words[0]) {
        None
    } else if words.len() > 2 {
        Some(CommandView::Invalid)
    } else if words.len() == 2 {
        Some(
            if words[0] == "/resume"@ && valid {
                CommandView::Resume(Some(words[1]))
            } else if words[0] == "/reference"@ && valid {
                CommandView::Reference(Some(words[1]))
            } else if words[0] == "/login"@ && provider_named(words[1]) is Some {
                CommandView::Login(provider_named(words[1]))
            } else {
                CommandView::Invalid
            },
        )
    } else {
        Some(
            if words[0] == "/plugins"@ {
                CommandView::Plugins
            } else if words[0] == "/help"@ {
                CommandView::Help
            } else if words[0] == "/new"@ {
                CommandView::New
            } else if words[0] == "/quit"@ || words[0] == "/exit"@ {
                CommandView::Quit
            } else if words[0] == "/resume"@ {
                CommandView::Resume(None)
            } else if words[0] == "/reference"@ {
                CommandView::Reference(None)
            } else if words[0] == "/model"@ {
                CommandView::Models
            } else if words[0] == "/effort"@ {
                CommandView::Effort
            } else {
                CommandView::Login(None)
            },
        )
    }
}

fn find_provider(word: &str) -> (r: Option<ProviderKind>)
    ensures
        r == provider_named(word@),
{
    if same(word, "deepseek") {
        Some(ProviderKind::Deepseek)
    } else if same(word, "openai") {
        Some(ProviderKind::Openai)
    } else if same(word, "openai-compatible") {
        Some(ProviderKind::OpenaiCompatible)
    } else {
        None
    }
}

fn is_command_word(word: &str) -> (r: bool)
    ensures
        r == command_word(word@),
{
    same(word, "/effort") || same(word, "/model") || same(word, "/login") || same(word, "/help")
        || same(word, "/new") || same(word, "/quit") || same(word, "/exit") || same(
        word,
        "/resume",
    ) || same(word, "/reference") || same(word, "/plugins")
}

/// Reads a command of the application. A text of several lines is none. `valid` says whether the
/// second word names a conversation.
pub fn command(s: &str, valid: bool) -> (r: Option<Command>)
    ensures
        match r {
            Some(c) => commanded(s@, valid) == Some(c@),
            None => commanded(s@, valid) is None,
        },
{
    if contains_char(s, '\r') || contains_char(s, '\n') {
        return None;
    }
    let words = split_words(s);
    let ghost spoken = text::words(s@);
    proof {
        assert(text::views(words@).len() == words@.len());
    }
    if words.len() == 0 {
        return None;
    }
    let first: &str = words[0].as_str();
    proof {
        assert(spoken[0] == first@);
    }
    if !is_command_word(first) {
        return None;
    }
    if words.len() > 2 {
        return Some(Command::Invalid);
    }
    if words.len() == 2 {
        let second: &str = words[1].as_str();
        proof {
            assert(spoken[1] == second@);
        }
        if same(first, "/resume") {
            return Some(
                if valid {
                    Command::Resume(Some(second.to_owned()))
                } else {
                    proof {
                        lemma_command_words();
                    }
                    Command::Invalid
                },
            );
        }
        if same(first, "/reference") {
            return Some(
                if valid {
                    Command::Reference(Some(second.to_owned()))
                } else {
                    proof {
                        lemma_command_words();
                    }
                    Command::Invalid
                },
            );
        }
        if same(first, "/login") {
            let provider = find_provider(second);
            if provider.is_some() {
                return Some(Command::Login(provider));
            }
        }
        return Some(Command::Invalid);
    }
    Some(
        if same(first, "/plugins") {
            Command::Plugins
        } else if same(first, "/help") {
            Command::Help
        } else if same(first, "/new") {
            Command::New
        } else if same(first, "/quit") || same(first, "/exit") {
            Command::Quit
        } else if same(first, "/resume") {
            Command::Resume(None)
        } else if same(first, "/reference") {
            Command::Reference(None)
        } else if same(first, "/model") {
            Command::Models
        } else if same(first, "/effort") {
            Command::Effort
        } else {
            Command::Login(None)
        },
    )
}

proof fn lemma_command_words()
    ensures
        "/resume"@ != "/login"@,
        "/resume"@ != "/reference"@,
        "/reference"@ != "/login"@,
{
    reveal_strlit("/resume");
    reveal_strlit("/reference");
    reveal_strlit("/login");
    assert("/resume"@.len() == 7);
    assert("/reference"@.len() == 10);
    assert("/login"@.len() == 6);
}

/// A command never takes a key or any other third word.
pub proof fn law_no_secret_argument(s: Seq<char>, valid: bool)
    requires
        text::words(s).len() > 2,
    ensures
        commanded(s, valid) is None || commanded(s, valid) == Some(CommandView::Invalid),
{
}

/// A text is a command if and only if it is one line and its first word is the name of one.
pub proof fn law_command_is_one_line(s: Seq<char>, valid: bool)
    ensures
        commanded(s, valid) is Some <==> !s.contains('\r') && !s.contains('\n') && text::words(
            s,
        ).len() > 0 && command_word(text::words(s)[0]),
{
}

/// Only the words of a line decide which command it is: it is that of its words with one space
/// between each two.
pub proof fn law_only_words_decide(s: Seq<char>, valid: bool)
    requires
        !s.contains('\r') && !s.contains('\n'),
    ensures
        commanded(s, valid) == commanded(text::joined(text::words(s)), valid),
{
    let words = text::words(s);
    text::lemma_words_are_words(s);
    text::lemma_words_joined(words);
    text::lemma_joined_on_one_line(words, '\r');
    text::lemma_joined_on_one_line(words, '\n');
}

/// A model of a deployment.
#[derive(Debug)]
pub struct ModelRef {
    pub deployment: String,
    pub model: String,
}

/// What a [`ModelRef`] says.
#[verifier::ext_equal]
pub struct ModelRefView {
    pub deployment: Seq<char>,
    pub model: Seq<char>,
}

impl View for ModelRef {
    type V = ModelRefView;

    open spec fn view(&self) -> ModelRefView {
        ModelRefView { deployment: self.deployment@, model: self.model@ }
    }
}

impl Clone for ModelRef {
    fn clone(&self) -> (r: Self)
        ensures
            r@ == self@,
    {
        ModelRef { deployment: self.deployment.clone(), model: self.model.clone() }
    }
}

/// A model and how hard it is to think.
#[derive(Debug)]
pub struct Selection {
    pub model: ModelRef,
    pub effort: Option<String>,
}

/// What a [`Selection`] says.
#[verifier::ext_equal]
pub struct SelectionView {
    pub model: ModelRefView,
    pub effort: Option<Seq<char>>,
}

impl View for Selection {
    type V = SelectionView;

    open spec fn view(&self) -> SelectionView {
        SelectionView { model: self.model@, effort: scene::optional(self.effort) }
    }
}

impl Clone for Selection {
    fn clone(&self) -> (r: Self)
        ensures
            r@ == self@,
    {
        Selection { model: self.model.clone(), effort: clone_optional(&self.effort) }
    }
}

impl Selection {
    /// Whether two selections are the same.
    pub fn is(&self, other: &Selection) -> (r: bool)
        ensures
            r == (self@ == other@),
    {
        let r: bool = same(self.model.deployment.as_str(), other.model.deployment.as_str())
            && same(self.model.model.as_str(), other.model.model.as_str()) && scene::same_optional(
            &self.effort,
            &other.effort,
        );
        proof {
            if r {
                assert(self@ =~= other@);
            }
        }
        r
    }
}

/// A model that a provider told of, as far as its sizes are known.
#[derive(Debug)]
pub struct Candidate {
    pub id: String,
    pub context: Option<u32>,
    pub output: Option<u32>,
}

/// What a [`Candidate`] says.
#[verifier::ext_equal]
pub struct CandidateView {
    pub id: Seq<char>,
    pub context: Option<u32>,
    pub output: Option<u32>,
}

impl View for Candidate {
    type V = CandidateView;

    open spec fn view(&self) -> CandidateView {
        CandidateView { id: self.id@, context: self.context, output: self.output }
    }
}

impl Clone for Candidate {
    fn clone(&self) -> (r: Self)
        ensures
            r@ == self@,
    {
        Candidate { id: self.id.clone(), context: self.context, output: self.output }
    }
}

/// The sizes that a model is used with.
#[derive(Clone, Copy, Debug, PartialEq, Eq, Structural)]
pub struct Limits {
    pub context: u32,
    pub default_output: u32,
    pub max_output: u32,
}

/// The sizes for a context and an output.
pub open spec fn limits_for(context: u32, output: u32) -> Limits {
    Limits {
        context,
        default_output: if output < 4096 {
            output
        } else {
            4096
        },
        max_output: output,
    }
}

pub fn make_limits(context: u32, output: u32) -> (r: Limits)
    ensures
        r == limits_for(context, output),
{
    Limits {
        context,
        default_output: if output < 4096 {
            output
        } else {
            4096
        },
        max_output: output,
    }
}

/// A model that a deployment declares; without sizes where its entry cannot be read.
#[derive(Debug)]
pub struct ModelEntry {
    pub id: String,
    pub limits: Option<Limits>,
}

impl View for ModelEntry {
    type V = (Seq<char>, Option<Limits>);

    open spec fn view(&self) -> (Seq<char>, Option<Limits>) {
        (self.id@, self.limits)
    }
}

impl Clone for ModelEntry {
    fn clone(&self) -> (r: Self)
        ensures
            r@ == self@,
    {
        ModelEntry { id: self.id.clone(), limits: self.limits }
    }
}

/// The efforts that a deployment declares for a model.
#[derive(Debug)]
pub struct EffortEntry {
    pub id: String,
    pub supported: Vec<String>,
    pub default: Option<String>,
}

/// What an [`EffortEntry`] says.
#[verifier::ext_equal]
pub struct EffortView {
    pub id: Seq<char>,
    pub supported: Seq<Seq<char>>,
    pub default: Option<Seq<char>>,
}

impl View for EffortEntry {
    type V = EffortView;

    open spec fn view(&self) -> EffortView {
        EffortView {
            id: self.id@,
            supported: text::views(self.supported@),
            default: scene::optional(self.default),
        }
    }
}

/// Copies a list of texts.
pub fn clone_texts(v: &Vec<String>) -> (r: Vec<String>)
    ensures
        text::views(r@) == text::views(v@),
{
    let mut r: Vec<String> = Vec::new();
    let mut i: usize = 0;
    while i < v.len()
        invariant
            i <= v@.len(),
            text::views(r@) == text::views(v@).take(i as int),
        decreases v@.len() - i,
    {
        let ghost before = text::views(r@);
        r.push(v[i].clone());
        proof {
            assert(text::views(r@) =~= before.push(v@[i as int]@));
            assert(text::views(v@).take(i as int + 1) =~= before.push(v@[i as int]@));
        }
        i += 1;
    }
    proof {
        assert(text::views(v@).take(v@.len() as int) =~= text::views(v@));
    }
    r
}

impl Clone for EffortEntry {
    fn clone(&self) -> (r: Self)
        ensures
            r@ == self@,
    {
        let r = EffortEntry {
            id: self.id.clone(),
            supported: clone_texts(&self.supported),
            default: clone_optional(&self.default),
        };
        proof {
            assert(r@ =~= self@);
        }
        r
    }
}

/// A deployment of a provider, as far as setting it up reads or changes it. What else belongs to
/// it is kept by its owner under `base`.
#[derive(Debug)]
pub struct Definition {
    pub provider: ProviderKind,
    pub base: Option<u64>,
    pub deployment: Option<String>,
    pub endpoint: Option<String>,
    pub slot: Option<String>,
    pub models: Vec<ModelEntry>,
    pub efforts: Vec<EffortEntry>,
}

/// What a [`Definition`] says.
#[verifier::ext_equal]
pub struct DefinitionView {
    pub provider: ProviderKind,
    pub base: Option<u64>,
    pub deployment: Option<Seq<char>>,
    pub endpoint: Option<Seq<char>>,
    pub slot: Option<Seq<char>>,
    pub models: Seq<(Seq<char>, Option<Limits>)>,
    pub efforts: Seq<EffortView>,
}

pub open spec fn models_of(v: Seq<ModelEntry>) -> Seq<(Seq<char>, Option<Limits>)> {
    Seq::new(v.len(), |i: int| v[i]@)
}

pub open spec fn efforts_of(v: Seq<EffortEntry>) -> Seq<EffortView> {
    Seq::new(v.len(), |i: int| v[i]@)
}

impl View for Definition {
    type V = DefinitionView;

    open spec fn view(&self) -> DefinitionView {
        DefinitionView {
            provider: self.provider,
            base: self.base,
            deployment: scene::optional(self.deployment),
            endpoint: scene::optional(self.endpoint),
            slot: scene::optional(self.slot),
            models: models_of(self.models@),
            efforts: efforts_of(self.efforts@),
        }
    }
}

impl Clone for Definition {
    fn clone(&self) -> (r: Self)
        ensures
            r@ == self@,
    {
        let mut models: Vec<ModelEntry> = Vec::new();
        let mut i: usize = 0;
        while i < self.models.len()
            invariant
                i <= self.models@.len(),
                models_of(models@) == models_of(self.models@).take(i as int),
            decreases self.models@.len() - i,
        {
            let ghost before = models_of(models@);
            models.push(self.models[i].clone());
            proof {
                assert(models_of(models@) =~= before.push(self.models@[i as int]@));
                assert(models_of(self.models@).take(i as int + 1) =~= before.push(
                    self.models@[i as int]@,
                ));
            }
            i += 1;
        }
        let mut efforts: Vec<EffortEntry> = Vec::new();
        let mut j: usize = 0;
        while j < self.efforts.len()
            invariant
                j <= self.efforts@.len(),
                efforts_of(efforts@) == efforts_of(self.efforts@).take(j as int),
            decreases self.efforts@.len() - j,
        {
            let ghost before = efforts_of(efforts@);
            efforts.push(self.efforts[j].clone());
            proof {
                assert(efforts_of(efforts@) =~= before.push(self.efforts@[j as int]@));
                assert(efforts_of(self.efforts@).take(j as int + 1) =~= before.push(
                    self.efforts@[j as int]@,
                ));
            }
            j += 1;
        }
        let r = Definition {
            provider: self.provider,
            base: self.base,
            deployment: clone_optional(&self.deployment),
            endpoint: clone_optional(&self.endpoint),
            slot: clone_optional(&self.slot),
            models,
            efforts,
        };
        proof {
            assert(models_of(self.models@).take(i as int) =~= models_of(self.models@));
            assert(efforts_of(self.efforts@).take(j as int) =~= efforts_of(self.efforts@));
            assert(r@ =~= self@);
        }
        r
    }
}

/// The place of a model in a list of declared ones.
pub open spec fn model_place(v: Seq<(Seq<char>, Option<Limits>)>, id: Seq<char>) -> Option<int>
    decreases v.len(),
{
    if v.len() == 0 {
        None
    } else {
        match model_place(v.drop_last(), id) {
            Some(i) => Some(i),
            None => if v.last().0 == id {
                Some(v.len() - 1)
            } else {
                None
            },
        }
    }
}

/// The place of a model in a list of declared efforts.
pub open spec fn effort_place(v: Seq<EffortView>, id: Seq<char>) -> Option<int>
    decreases v.len(),
{
    if v.len() == 0 {
        None
    } else {
        match effort_place(v.drop_last(), id) {
            Some(i) => Some(i),
            None => if v.last().id == id {
                Some(v.len() - 1)
            } else {
                None
            },
        }
    }
}

impl DefinitionView {
    /// What is declared of a model: nothing, sizes, or an entry that cannot be read.
    #[verifier::opaque]
    pub open spec fn limits(self, id: Seq<char>) -> Option<Option<Limits>> {
        match model_place(self.models, id) {
            Some(i) => Some(self.models[i].1),
            None => None,
        }
    }

    /// The deployment with the sizes of a model declared.
    #[verifier::opaque]
    pub open spec fn declaring(self, id: Seq<char>, limits: Limits) -> DefinitionView {
        DefinitionView {
            models: match model_place(self.models, id) {
                Some(i) => self.models.update(i, (id, Some(limits))),
                None => self.models.push((id, Some(limits))),
            },
            ..self
        }
    }

    /// The efforts declared of a model.
    #[verifier::opaque]
    pub open spec fn effort(self, id: Seq<char>) -> Option<EffortView> {
        match effort_place(self.efforts, id) {
            Some(i) => Some(self.efforts[i]),
            None => None,
        }
    }

    /// The deployment with the efforts of a model declared.
    #[verifier::opaque]
    pub open spec fn with_effort(self, e: EffortView) -> DefinitionView {
        DefinitionView {
            efforts: match effort_place(self.efforts, e.id) {
                Some(i) => self.efforts.update(i, e),
                None => self.efforts.push(e),
            },
            ..self
        }
    }
}

proof fn lemma_model_place(v: Seq<(Seq<char>, Option<Limits>)>, id: Seq<char>)
    ensures
        match model_place(v, id) {
            Some(i) => 0 <= i < v.len() && v[i].0 == id && forall|j: int|
                0 <= j < i ==> #[trigger] v[j].0 != id,
            None => forall|j: int| 0 <= j < v.len() ==> #[trigger] v[j].0 != id,
        },
    decreases v.len(),
{
    if v.len() > 0 {
        lemma_model_place(v.drop_last(), id);
        match model_place(v.drop_last(), id) {
            Some(i) => {
                assert(v.drop_last()[i] == v[i]);
                assert forall|j: int| 0 <= j < i implies #[trigger] v[j].0 != id by {
                    assert(v.drop_last()[j] == v[j]);
                }
            },
            None => {
                assert forall|j: int| 0 <= j < v.len() - 1 implies #[trigger] v[j].0 != id by {
                    assert(v.drop_last()[j] == v[j]);
                }
            },
        }
    }
}

proof fn lemma_effort_place(v: Seq<EffortView>, id: Seq<char>)
    ensures
        match effort_place(v, id) {
            Some(i) => 0 <= i < v.len() && v[i].id == id && forall|j: int|
                0 <= j < i ==> #[trigger] v[j].id != id,
            None => forall|j: int| 0 <= j < v.len() ==> #[trigger] v[j].id != id,
        },
    decreases v.len(),
{
    if v.len() > 0 {
        lemma_effort_place(v.drop_last(), id);
        match effort_place(v.drop_last(), id) {
            Some(i) => {
                assert(v.drop_last()[i] == v[i]);
                assert forall|j: int| 0 <= j < i implies #[trigger] v[j].id != id by {
                    assert(v.drop_last()[j] == v[j]);
                }
            },
            None => {
                assert forall|j: int| 0 <= j < v.len() - 1 implies #[trigger] v[j].id != id by {
                    assert(v.drop_last()[j] == v[j]);
                }
            },
        }
    }
}

/// What is declared of a model is what was declared last, and nothing else changes.
pub proof fn law_declared(d: DefinitionView, id: Seq<char>, limits: Limits, other: Seq<char>)
    ensures
        d.declaring(id, limits).limits(id) == Some(Some(limits)),
        other != id ==> d.declaring(id, limits).limits(other) == d.limits(other),
        d.declaring(id, limits).efforts == d.efforts,
{
    reveal(DefinitionView::limits);
    reveal(DefinitionView::declaring);
    let w = d.declaring(id, limits);
    lemma_model_place(d.models, id);
    lemma_model_place(w.models, id);
    match model_place(d.models, id) {
        Some(i) => {
            assert(w.models[i].0 == id);
            assert(model_place(w.models, id) is Some);
            let k = model_place(w.models, id)->0;
            if k < i {
                assert(w.models[k] == d.models[k]);
            }
        },
        None => {
            let n = d.models.len() as int;
            assert(w.models[n].0 == id);
            let k = model_place(w.models, id)->0;
            if k < n {
                assert(w.models[k] == d.models[k]);
            }
        },
    }
    if other != id {
        lemma_model_place(d.models, other);
        lemma_model_place(w.models, other);
        match model_place(d.models, other) {
            Some(a) => {
                assert(w.models[a] == d.models[a]);
                let b = model_place(w.models, other)->0;
                assert(w.models[b].0 == other);
                if b < a {
                    assert(w.models[b] == d.models[b]);
                }
            },
            None => {
                if model_place(w.models, other) is Some {
                    let b = model_place(w.models, other)->0;
                    assert(w.models[b].0 == other);
                    if b < d.models.len() {
                        assert(w.models[b] == d.models[b] || w.models[b].0 == id);
                    }
                }
            },
        }
    }
}

impl Definition {
    fn model_index(&self, id: &str) -> (r: Option<usize>)
        ensures
            match r {
                Some(i) => model_place(models_of(self.models@), id@) == Some(i as int),
                None => model_place(models_of(self.models@), id@) is None,
            },
            r matches Some(i) ==> i < self.models@.len(),
    {
        proof {
            lemma_model_place(models_of(self.models@), id@);
        }
        let mut i: usize = 0;
        while i < self.models.len()
            invariant
                i <= self.models@.len(),
                forall|j: int| 0 <= j < i ==> models_of(self.models@)[j].0 != id@,
            decreases self.models@.len() - i,
        {
            if same(self.models[i].id.as_str(), id) {
                proof {
                    lemma_model_place(models_of(self.models@), id@);
                    assert(models_of(self.models@)[i as int].0 == id@);
                }
                return Some(i);
            }
            i += 1;
        }
        None
    }

    fn effort_index(&self, id: &str) -> (r: Option<usize>)
        ensures
            match r {
                Some(i) => effort_place(efforts_of(self.efforts@), id@) == Some(i as int),
                None => effort_place(efforts_of(self.efforts@), id@) is None,
            },
            r matches Some(i) ==> i < self.efforts@.len(),
    {
        proof {
            lemma_effort_place(efforts_of(self.efforts@), id@);
        }
        let mut i: usize = 0;
        while i < self.efforts.len()
            invariant
                i <= self.efforts@.len(),
                forall|j: int| 0 <= j < i ==> efforts_of(self.efforts@)[j].id != id@,
            decreases self.efforts@.len() - i,
        {
            if same(self.efforts[i].id.as_str(), id) {
                proof {
                    lemma_effort_place(efforts_of(self.efforts@), id@);
                    assert(efforts_of(self.efforts@)[i as int].id == id@);
                }
                return Some(i);
            }
            i += 1;
        }
        None
    }

    /// What is declared of a model.
    pub fn limits(&self, id: &str) -> (r: Option<Option<Limits>>)
        ensures
            r == self@.limits(id@),
    {
        proof {
            reveal(DefinitionView::limits);
        }
        match self.model_index(id) {
            Some(i) => Some(self.models[i].limits),
            None => None,
        }
    }

    /// Declares the sizes of a model.
    pub fn declare(&mut self, id: &str, limits: Limits)
        ensures
            final(self)@ == old(self)@.declaring(id@, limits),
    {
        proof {
            reveal(DefinitionView::declaring);
        }
        let ghost v = self@;
        let entry = ModelEntry { id: id.to_owned(), limits: Some(limits) };
        match self.model_index(id) {
            Some(i) => {
                self.models.set(i, entry);
            },
            None => {
                self.models.push(entry);
            },
        }
        proof {
            assert(self@.models =~= v.declaring(id@, limits).models);
            assert(self@ =~= v.declaring(id@, limits));
        }
    }

    /// The efforts declared of a model.
    pub fn effort(&self, id: &str) -> (r: Option<EffortEntry>)
        ensures
            match r {
                Some(e) => self@.effort(id@) == Some(e@),
                None => self@.effort(id@) is None,
            },
    {
        proof {
            reveal(DefinitionView::effort);
        }
        match self.effort_index(id) {
            Some(i) => {
                proof {
                    assert(self@.efforts[i as int] == self.efforts@[i as int]@);
                }
                Some(self.efforts[i].clone())
            },
            None => None,
        }
    }

    /// Declares the efforts of a model.
    pub fn declare_effort(&mut self, entry: EffortEntry)
        ensures
            final(self)@ == old(self)@.with_effort(entry@),
    {
        proof {
            reveal(DefinitionView::with_effort);
        }
        let ghost v = self@;
        let ghost e = entry@;
        match self.effort_index(entry.id.as_str()) {
            Some(i) => {
                self.efforts.set(i, entry);
            },
            None => {
                self.efforts.push(entry);
            },
        }
        proof {
            assert(self@.efforts =~= v.with_effort(e).efforts);
            assert(self@ =~= v.with_effort(e));
        }
    }
}

/// The name that a new deployment of a provider starts with.
pub open spec fn first_name(provider: ProviderKind) -> Seq<char> {
    match provider {
        ProviderKind::Deepseek => "deepseek"@,
        ProviderKind::Openai => "openai"@,
        ProviderKind::OpenaiCompatible => "compatible"@,
    }
}

/// The endpoint that a new deployment of a provider starts with.
pub open spec fn first_endpoint(provider: ProviderKind) -> Seq<char> {
    match provider {
        ProviderKind::Deepseek => "https://api.deepseek.com"@,
        ProviderKind::Openai => "https://api.openai.com"@,
        ProviderKind::OpenaiCompatible => ""@,
    }
}

/// A new deployment of a provider.
pub open spec fn first_definition(provider: ProviderKind) -> DefinitionView {
    DefinitionView {
        provider,
        base: None,
        deployment: Some(first_name(provider)),
        endpoint: Some(first_endpoint(provider)),
        slot: Some(first_name(provider)),
        models: seq![],
        efforts: seq![],
    }
}

pub fn make_name(provider: ProviderKind) -> (r: &'static str)
    ensures
        r@ == first_name(provider),
{
    match provider {
        ProviderKind::Deepseek => "deepseek",
        ProviderKind::Openai => "openai",
        ProviderKind::OpenaiCompatible => "compatible",
    }
}

fn make_endpoint(provider: ProviderKind) -> (r: &'static str)
    ensures
        r@ == first_endpoint(provider),
{
    match provider {
        ProviderKind::Deepseek => "https://api.deepseek.com",
        ProviderKind::Openai => "https://api.openai.com",
        ProviderKind::OpenaiCompatible => "",
    }
}

/// A new deployment of a provider.
pub fn make_definition(provider: ProviderKind) -> (r: Definition)
    ensures
        r@ == first_definition(provider),
{
    let r = Definition {
        provider,
        base: None,
        deployment: Some(make_name(provider).to_owned()),
        endpoint: Some(make_endpoint(provider).to_owned()),
        slot: Some(make_name(provider).to_owned()),
        models: Vec::new(),
        efforts: Vec::new(),
    };
    proof {
        assert(r@ =~= first_definition(provider));
    }
    r
}

/// A setting that only the deployments of one provider start with.
#[derive(Clone, Copy, Debug)]
pub enum Setting {
    Text(&'static str),
    Flag(bool),
}

/// The settings that a new deployment of a provider starts with, besides those of every one.
pub fn first_settings(provider: ProviderKind) -> (r: Vec<(&'static str, Setting)>)
    ensures
        match provider {
            ProviderKind::Openai => r@.len() == 2 && r@[0].0@ == "language"@ && r@[0].1
                == Setting::Flag(true) && r@[1].0@ == "image"@ && r@[1].1 == Setting::Flag(false),
            ProviderKind::OpenaiCompatible => r@.len() == 2 && r@[0].0@ == "path"@ && (r@[0].1
                matches Setting::Text(s) && s@ == "/chat/completions"@) && r@[1].0@
                == "allow_image_input"@ && r@[1].1 == Setting::Flag(false),
            ProviderKind::Deepseek => r@.len() == 1 && r@[0].0@ == "protocol"@ && (r@[0].1
                matches Setting::Text(s) && s@ == "responses"@),
        },
{
    let mut r: Vec<(&'static str, Setting)> = Vec::new();
    match provider {
        ProviderKind::Openai => {
            r.push(("language", Setting::Flag(true)));
            r.push(("image", Setting::Flag(false)));
        },
        ProviderKind::OpenaiCompatible => {
            r.push(("path", Setting::Text("/chat/completions")));
            r.push(("allow_image_input", Setting::Flag(false)));
        },
        ProviderKind::Deepseek => {
            r.push(("protocol", Setting::Text("responses")));
        },
    }
    r
}

proof fn lemma_words_differ()
    ensures
        "/effort"@ != "/model"@,
        "/effort"@ != "/login"@,
        "/effort"@ != "/help"@,
        "/effort"@ != "/new"@,
        "/effort"@ != "/quit"@,
        "/effort"@ != "/exit"@,
        "/effort"@ != "/resume"@,
        "/effort"@ != "/reference"@,
        "/effort"@ != "/plugins"@,
        "/model"@ != "/login"@,
        "/model"@ != "/help"@,
        "/model"@ != "/new"@,
        "/model"@ != "/quit"@,
        "/model"@ != "/exit"@,
        "/model"@ != "/resume"@,
        "/model"@ != "/reference"@,
        "/model"@ != "/plugins"@,
        "/login"@ != "/help"@,
        "/login"@ != "/new"@,
        "/login"@ != "/quit"@,
        "/login"@ != "/exit"@,
        "/login"@ != "/resume"@,
        "/login"@ != "/reference"@,
        "/login"@ != "/plugins"@,
        "/help"@ != "/new"@,
        "/help"@ != "/quit"@,
        "/help"@ != "/exit"@,
        "/help"@ != "/resume"@,
        "/help"@ != "/reference"@,
        "/help"@ != "/plugins"@,
        "/new"@ != "/quit"@,
        "/new"@ != "/exit"@,
        "/new"@ != "/resume"@,
        "/new"@ != "/reference"@,
        "/new"@ != "/plugins"@,
        "/quit"@ != "/exit"@,
        "/quit"@ != "/resume"@,
        "/quit"@ != "/reference"@,
        "/quit"@ != "/plugins"@,
        "/exit"@ != "/resume"@,
        "/exit"@ != "/reference"@,
        "/exit"@ != "/plugins"@,
        "/resume"@ != "/reference"@,
        "/resume"@ != "/plugins"@,
        "/reference"@ != "/plugins"@,
{
    assert("/effort"@ != "/model"@) by {
        reveal_strlit("/effort");
        reveal_strlit("/model");
        assert("/effort"@.len() != "/model"@.len());
    }
    assert("/effort"@ != "/login"@) by {
        reveal_strlit("/effort");
        reveal_strlit("/login");
        assert("/effort"@.len() != "/login"@.len());
    }
    assert("/effort"@ != "/help"@) by {
        reveal_strlit("/effort");
        reveal_strlit("/help");
        assert("/effort"@.len() != "/help"@.len());
    }
    assert("/effort"@ != "/new"@) by {
        reveal_strlit("/effort");
        reveal_strlit("/new");
        assert("/effort"@.len() != "/new"@.len());
    }
    assert("/effort"@ != "/quit"@) by {
        reveal_strlit("/effort");
        reveal_strlit("/quit");
        assert("/effort"@.len() != "/quit"@.len());
    }
    assert("/effort"@ != "/exit"@) by {
        reveal_strlit("/effort");
        reveal_strlit("/exit");
        assert("/effort"@.len() != "/exit"@.len());
    }
    assert("/effort"@ != "/resume"@) by {
        reveal_strlit("/effort");
        reveal_strlit("/resume");
        assert("/effort"@[1] != "/resume"@[1]);
    }
    assert("/effort"@ != "/reference"@) by {
        reveal_strlit("/effort");
        reveal_strlit("/reference");
        assert("/effort"@.len() != "/reference"@.len());
    }
    assert("/effort"@ != "/plugins"@) by {
        reveal_strlit("/effort");
        reveal_strlit("/plugins");
        assert("/effort"@.len() != "/plugins"@.len());
    }
    assert("/model"@ != "/login"@) by {
        reveal_strlit("/model");
        reveal_strlit("/login");
        assert("/model"@[1] != "/login"@[1]);
    }
    assert("/model"@ != "/help"@) by {
        reveal_strlit("/model");
        reveal_strlit("/help");
        assert("/model"@.len() != "/help"@.len());
    }
    assert("/model"@ != "/new"@) by {
        reveal_strlit("/model");
        reveal_strlit("/new");
        assert("/model"@.len() != "/new"@.len());
    }
    assert("/model"@ != "/quit"@) by {
        reveal_strlit("/model");
        reveal_strlit("/quit");
        assert("/model"@.len() != "/quit"@.len());
    }
    assert("/model"@ != "/exit"@) by {
        reveal_strlit("/model");
        reveal_strlit("/exit");
        assert("/model"@.len() != "/exit"@.len());
    }
    assert("/model"@ != "/resume"@) by {
        reveal_strlit("/model");
        reveal_strlit("/resume");
        assert("/model"@.len() != "/resume"@.len());
    }
    assert("/model"@ != "/reference"@) by {
        reveal_strlit("/model");
        reveal_strlit("/reference");
        assert("/model"@.len() != "/reference"@.len());
    }
    assert("/model"@ != "/plugins"@) by {
        reveal_strlit("/model");
        reveal_strlit("/plugins");
        assert("/model"@.len() != "/plugins"@.len());
    }
    assert("/login"@ != "/help"@) by {
        reveal_strlit("/login");
        reveal_strlit("/help");
        assert("/login"@.len() != "/help"@.len());
    }
    assert("/login"@ != "/new"@) by {
        reveal_strlit("/login");
        reveal_strlit("/new");
        assert("/login"@.len() != "/new"@.len());
    }
    assert("/login"@ != "/quit"@) by {
        reveal_strlit("/login");
        reveal_strlit("/quit");
        assert("/login"@.len() != "/quit"@.len());
    }
    assert("/login"@ != "/exit"@) by {
        reveal_strlit("/login");
        reveal_strlit("/exit");
        assert("/login"@.len() != "/exit"@.len());
    }
    assert("/login"@ != "/resume"@) by {
        reveal_strlit("/login");
        reveal_strlit("/resume");
        assert("/login"@.len() != "/resume"@.len());
    }
    assert("/login"@ != "/reference"@) by {
        reveal_strlit("/login");
        reveal_strlit("/reference");
        assert("/login"@.len() != "/reference"@.len());
    }
    assert("/login"@ != "/plugins"@) by {
        reveal_strlit("/login");
        reveal_strlit("/plugins");
        assert("/login"@.len() != "/plugins"@.len());
    }
    assert("/help"@ != "/new"@) by {
        reveal_strlit("/help");
        reveal_strlit("/new");
        assert("/help"@.len() != "/new"@.len());
    }
    assert("/help"@ != "/quit"@) by {
        reveal_strlit("/help");
        reveal_strlit("/quit");
        assert("/help"@[1] != "/quit"@[1]);
    }
    assert("/help"@ != "/exit"@) by {
        reveal_strlit("/help");
        reveal_strlit("/exit");
        assert("/help"@[1] != "/exit"@[1]);
    }
    assert("/help"@ != "/resume"@) by {
        reveal_strlit("/help");
        reveal_strlit("/resume");
        assert("/help"@.len() != "/resume"@.len());
    }
    assert("/help"@ != "/reference"@) by {
        reveal_strlit("/help");
        reveal_strlit("/reference");
        assert("/help"@.len() != "/reference"@.len());
    }
    assert("/help"@ != "/plugins"@) by {
        reveal_strlit("/help");
        reveal_strlit("/plugins");
        assert("/help"@.len() != "/plugins"@.len());
    }
    assert("/new"@ != "/quit"@) by {
        reveal_strlit("/new");
        reveal_strlit("/quit");
        assert("/new"@.len() != "/quit"@.len());
    }
    assert("/new"@ != "/exit"@) by {
        reveal_strlit("/new");
        reveal_strlit("/exit");
        assert("/new"@.len() != "/exit"@.len());
    }
    assert("/new"@ != "/resume"@) by {
        reveal_strlit("/new");
        reveal_strlit("/resume");
        assert("/new"@.len() != "/resume"@.len());
    }
    assert("/new"@ != "/reference"@) by {
        reveal_strlit("/new");
        reveal_strlit("/reference");
        assert("/new"@.len() != "/reference"@.len());
    }
    assert("/new"@ != "/plugins"@) by {
        reveal_strlit("/new");
        reveal_strlit("/plugins");
        assert("/new"@.len() != "/plugins"@.len());
    }
    assert("/quit"@ != "/exit"@) by {
        reveal_strlit("/quit");
        reveal_strlit("/exit");
        assert("/quit"@[1] != "/exit"@[1]);
    }
    assert("/quit"@ != "/resume"@) by {
        reveal_strlit("/quit");
        reveal_strlit("/resume");
        assert("/quit"@.len() != "/resume"@.len());
    }
    assert("/quit"@ != "/reference"@) by {
        reveal_strlit("/quit");
        reveal_strlit("/reference");
        assert("/quit"@.len() != "/reference"@.len());
    }
    assert("/quit"@ != "/plugins"@) by {
        reveal_strlit("/quit");
        reveal_strlit("/plugins");
        assert("/quit"@.len() != "/plugins"@.len());
    }
    assert("/exit"@ != "/resume"@) by {
        reveal_strlit("/exit");
        reveal_strlit("/resume");
        assert("/exit"@.len() != "/resume"@.len());
    }
    assert("/exit"@ != "/reference"@) by {
        reveal_strlit("/exit");
        reveal_strlit("/reference");
        assert("/exit"@.len() != "/reference"@.len());
    }
    assert("/exit"@ != "/plugins"@) by {
        reveal_strlit("/exit");
        reveal_strlit("/plugins");
        assert("/exit"@.len() != "/plugins"@.len());
    }
    assert("/resume"@ != "/reference"@) by {
        reveal_strlit("/resume");
        reveal_strlit("/reference");
        assert("/resume"@.len() != "/reference"@.len());
    }
    assert("/resume"@ != "/plugins"@) by {
        reveal_strlit("/resume");
        reveal_strlit("/plugins");
        assert("/resume"@.len() != "/plugins"@.len());
    }
    assert("/reference"@ != "/plugins"@) by {
        reveal_strlit("/reference");
        reveal_strlit("/plugins");
        assert("/reference"@.len() != "/plugins"@.len());
    }
}

/// A command of the application without an argument, on one line: each word asks for its own thing,
/// and a word that is no command asks for nothing.
pub proof fn law_single_words(s: Seq<char>, valid: bool)
    requires
        text::words(s).len() == 1,
        !s.contains('\r') && !s.contains('\n'),
    ensures
        ({
            let w = text::words(s)[0];
            let c = commanded(s, valid);
            &&& w == "/help"@ ==> c == Some(CommandView::Help)
            &&& w == "/new"@ ==> c == Some(CommandView::New)
            &&& w == "/quit"@ ==> c == Some(CommandView::Quit)
            &&& w == "/exit"@ ==> c == Some(CommandView::Quit)
            &&& w == "/resume"@ ==> c == Some(CommandView::Resume(None))
            &&& w == "/reference"@ ==> c == Some(CommandView::Reference(None))
            &&& w == "/model"@ ==> c == Some(CommandView::Models)
            &&& w == "/effort"@ ==> c == Some(CommandView::Effort)
            &&& w == "/login"@ ==> c == Some(CommandView::Login(None))
            &&& w == "/plugins"@ ==> c == Some(CommandView::Plugins)
            &&& c is None <==> w != "/help"@ && w != "/new"@ && w != "/quit"@ && w != "/exit"@ && w != "/resume"@ && w != "/reference"@ && w != "/model"@ && w != "/effort"@ && w != "/login"@ && w != "/plugins"@
        }),
{
    lemma_words_differ();
}

/// A command with one argument: a conversation is resumed or referred to where the argument names
/// one, and a login takes the name of a provider, each its own; any other argument is invalid.
pub proof fn law_words_with_argument(s: Seq<char>, valid: bool)
    requires
        text::words(s).len() == 2,
        !s.contains('\r') && !s.contains('\n'),
    ensures
        ({
            let w = text::words(s)[0];
            let x = text::words(s)[1];
            let c = commanded(s, valid);
            &&& w == "/resume"@ ==> c == Some(
                if valid {
                    CommandView::Resume(Some(x))
                } else {
                    CommandView::Invalid
                },
            )
            &&& w == "/reference"@ ==> c == Some(
                if valid {
                    CommandView::Reference(Some(x))
                } else {
                    CommandView::Invalid
                },
            )
            &&& w == "/login"@ && x == "deepseek"@ ==> c == Some(
                CommandView::Login(Some(ProviderKind::Deepseek)),
            )
            &&& w == "/login"@ && x == "openai"@ ==> c == Some(
                CommandView::Login(Some(ProviderKind::Openai)),
            )
            &&& w == "/login"@ && x == "openai-compatible"@ ==> c == Some(
                CommandView::Login(Some(ProviderKind::OpenaiCompatible)),
            )
            &&& w == "/login"@ && x != "deepseek"@ && x != "openai"@ && x != "openai-compatible"@
                ==> c == Some(CommandView::Invalid)
            &&& w == "/help"@ || w == "/new"@ || w == "/quit"@ || w == "/exit"@ || w == "/model"@ || w
                == "/effort"@ || w == "/plugins"@ ==> c == Some(CommandView::Invalid)
        }),
{
    lemma_words_differ();
    reveal_strlit("deepseek");
    reveal_strlit("openai");
    reveal_strlit("openai-compatible");
    assert("deepseek"@.len() != "openai"@.len());
    assert("deepseek"@.len() != "openai-compatible"@.len());
    assert("openai"@.len() != "openai-compatible"@.len());
}

/// A command with more than one argument is invalid, and a text that is not one line is none.
pub proof fn law_too_many_words(s: Seq<char>, valid: bool)
    ensures
        s.contains('\r') || s.contains('\n') || text::words(s).len() == 0 ==> commanded(s, valid)
            is None,
        text::words(s).len() > 2 && !s.contains('\r') && !s.contains('\n') && text::words(s)[0]
            == "/login"@ ==> commanded(s, valid) == Some(CommandView::Invalid),
{
}

/// What a new deployment of each provider starts with.
pub proof fn law_first_definitions(provider: ProviderKind)
    ensures
        first_definition(ProviderKind::Deepseek).endpoint == Some("https://api.deepseek.com"@),
        first_definition(ProviderKind::Deepseek).deployment == Some("deepseek"@),
        first_definition(ProviderKind::Openai).endpoint == Some("https://api.openai.com"@),
        first_definition(ProviderKind::Openai).deployment == Some("openai"@),
        first_definition(ProviderKind::OpenaiCompatible).endpoint == Some(""@),
        first_definition(ProviderKind::OpenaiCompatible).deployment == Some("compatible"@),
        first_definition(provider).provider == provider,
        first_definition(provider).slot == first_definition(provider).deployment,
        first_definition(provider).base is None,
        first_definition(provider).models.len() == 0,
        first_definition(provider).efforts.len() == 0,
{
}

/// The output of a model is asked for in full where it is small, and up to 4,096 otherwise; its
/// context and its largest output are as they were given.
pub proof fn law_limits(context: u32, output: u32)
    ensures
        limits_for(context, output).context == context,
        limits_for(context, output).max_output == output,
        limits_for(context, output).default_output <= output,
        limits_for(context, output).default_output <= 4096,
        limits_for(context, output).default_output == output || limits_for(
            context,
            output,
        ).default_output == 4096,
{
}

/// An effort that was declared is the one that is found, and no other changes.
pub proof fn law_with_effort(d: DefinitionView, e: EffortView, other: Seq<char>)
    ensures
        d.with_effort(e).effort(e.id) == Some(e),
        other != e.id ==> d.with_effort(e).effort(other) == d.effort(other),
        d.with_effort(e).models == d.models,
{
    reveal(DefinitionView::effort);
    reveal(DefinitionView::with_effort);
    let w = d.with_effort(e).efforts;
    lemma_effort_place(d.efforts, e.id);
    lemma_effort_place(d.efforts, other);
    lemma_effort_place(w, e.id);
    lemma_effort_place(w, other);
    match effort_place(d.efforts, e.id) {
        Some(i) => {
            assert(w[i] == e);
            if other != e.id {
                if let Some(j) = effort_place(d.efforts, other) {
                    assert(w[j] == d.efforts[j]);
                }
                if let Some(j) = effort_place(w, other) {
                    assert(w[j] == d.efforts[j]);
                }
            }
        },
        None => {
            assert(w[w.len() - 1] == e);
            if other != e.id {
                if let Some(j) = effort_place(d.efforts, other) {
                    assert(w[j] == d.efforts[j]);
                }
                if let Some(j) = effort_place(w, other) {
                    assert(w[j] == d.efforts[j]);
                }
            }
        },
    }
}

/// The limits and the efforts that a definition declares for a model are the first of its name, and
/// there are none only where none has it.
pub proof fn law_first_of_name(
    v: Seq<(Seq<char>, Option<Limits>)>,
    e: Seq<EffortView>,
    id: Seq<char>,
)
    ensures
        match model_place(v, id) {
            Some(i) => 0 <= i < v.len() && v[i].0 == id && forall|j: int|
                0 <= j < i ==> (#[trigger] v[j]).0 != id,
            None => forall|j: int| 0 <= j < v.len() ==> (#[trigger] v[j]).0 != id,
        },
        match effort_place(e, id) {
            Some(i) => 0 <= i < e.len() && e[i].id == id && forall|j: int|
                0 <= j < i ==> (#[trigger] e[j]).id != id,
            None => forall|j: int| 0 <= j < e.len() ==> (#[trigger] e[j]).id != id,
        },
    decreases v.len() + e.len(),
{
    if v.len() > 0 {
        let t = v.drop_last();
        law_first_of_name(t, e, id);
        assert(forall|j: int| 0 <= j < t.len() ==> #[trigger] v[j] == t[j]);
        assert(forall|j: int| 0 <= j < t.len() ==> v[j] == #[trigger] t[j]);
        assert(v.last() == v[v.len() - 1]);
    }
    if e.len() > 0 {
        let t = e.drop_last();
        law_first_of_name(v, t, id);
        assert(forall|j: int| 0 <= j < t.len() ==> #[trigger] e[j] == t[j]);
        assert(forall|j: int| 0 <= j < t.len() ==> e[j] == #[trigger] t[j]);
        assert(e.last() == e[e.len() - 1]);
    }
}

} // verus!
