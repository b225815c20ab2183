//! What holds of setting up models and keys, whatever is entered and whatever comes back.
use vstd::prelude::*;
use vstd::string::*;
use crate::keys::{KeyCode, KeyEvent};
use crate::number;
use crate::setup;
use crate::setup::{
    CandidateView, DefinitionView, EffortView, Limits, ModelRefView, ProviderKind, SelectionView,
};
use crate::setup_ui;
use crate::setup_ui::{
    AvailabilityView, ChoiceView, CredentialView, Field, IntegrationView, Opening, OperationView,
    RequestView, RulingsView, SnapshotView, StageView, StoreFailure, UiView, UpdateView,
};
use crate::text;

verus! {

/// A key is a single line of at most 64 KiB: what is typed is put behind it where it stays so and
/// the place it is kept in can be written, and otherwise nothing of it is taken.
pub proof fn law_typed_key(v: UiView, value: Seq<char>)
    ensures
        ({
            let o = v.typed(value);
            let locked = (v.integration is Some && !(v.credential is Some
                && v.credential->0.editable)) || (v.credential is Some && !v.credential->0.editable);
            let sound = text::size(v.secret) + text::size(value) <= 65536 && forall|i: int|
                0 <= i < value.len() ==> !text::control(#[trigger] value[i]);
            &&& o.op is None
            &&& !locked && sound <==> o.problem is None
            &&& o.problem is None ==> o.ui == (UiView { secret: v.secret + value, ..v })
            &&& o.problem is Some ==> o.ui == v
        }),
{
    reveal(UiView::typed);
}

/// The keys of the screen for a secret: a character is put behind it, Backspace takes the last one,
/// Control and U all of them, and Enter goes on.
pub proof fn law_secret_keys(v: UiView, key: KeyEvent, c: char, r: RulingsView)
    ensures
        key.code is Backspace && v.secret.len() > 0 ==> v.secret_keyed(key, r).ui == (UiView {
            secret: v.secret.drop_last(),
            ..v
        }),
        key.code is Backspace && v.secret.len() == 0 ==> v.secret_keyed(key, r).ui == v,
        key.code == KeyCode::Char('u') && key.control ==> v.secret_keyed(key, r).ui.secret.len() == 0,
        key.code == KeyCode::Char(c) && !key.control && !text::control(c) ==> v.secret_keyed(key, r)
            == v.typed(seq![c]),
        key.code == KeyCode::Char(c) && key.control && c != 'u' && c != 'U' ==> v.secret_keyed(
            key,
            r,
        ).ui == v,
        key.code is Enter ==> v.secret_keyed(key, r) == v.entered_secret(r),
{
    reveal(UiView::secret_keyed);
}

/// A secret that is entered goes out once, for the provider and the place that are set up, and
/// nothing of it is left on the screen; without one the configured key is used, and without that
/// there is nothing to go on with.
pub proof fn law_entered_secret(
    v: UiView,
    r: RulingsView,
    d: DefinitionView,
    endpoint: Seq<char>,
    slot: Seq<char>,
)
    requires
        v.integration is None,
        v.feature,
        v.definition == Some(d),
        d.endpoint == Some(endpoint),
        d.slot == Some(slot),
        r.request is None,
        !(v.credential is Some && v.credential->0.availability is Unavailable),
    ensures
        ({
            let o = v.entered_secret(r);
            &&& v.secret.len() > 0 && r.secret ==> o.op == Some(
                OperationView::CredentialSet { provider: d.provider, slot, secret: v.secret },
            ) && o.ui.secret.len() == 0 && o.ui.pending && o.ui.mutation
            &&& v.secret.len() > 0 && !r.secret ==> o.op is None && o.problem is Some
                && o.ui.secret.len() == 0
            &&& v.secret.len() == 0 && v.credential is Some && v.credential->0.availability
                is Configured ==> o.op == Some(
                OperationView::Discover(RequestView { provider: d.provider, endpoint, slot }),
            )
            &&& v.secret.len() == 0 && !(v.credential is Some && v.credential->0.availability
                is Configured) ==> o.op is None && o.problem is Some
        }),
{
    reveal(UiView::entered_secret);
    reveal(UiView::discovering);
}

/// The secret of an integration is saved only where its status was read and can be written, and
/// nothing of it is left.
pub proof fn law_entered_integration(v: UiView, r: RulingsView)
    requires
        v.integration is Some,
    ensures
        ({
            let o = v.entered_secret(r);
            let writable = v.credential is Some && v.credential->0.editable;
            &&& writable && r.secret ==> o.op == Some(OperationView::SetIntegration(v.secret))
                && o.ui.secret.len() == 0 && o.ui.pending && o.ui.mutation
            &&& writable && !r.secret ==> o.op is None && o.problem is Some && o.ui.secret.len() == 0
            &&& !writable ==> o.op is None && o.problem is Some
        }),
{
    reveal(UiView::entered_secret);
    reveal(UiView::entered_integration);
}

/// Looking for models needs a provider, an endpoint and a place for its key, and asks about exactly
/// those.
pub proof fn law_request(v: UiView, r: RulingsView)
    ensures
        v.request(r) is Ok <==> v.definition is Some && v.definition->0.endpoint is Some
            && v.definition->0.slot is Some && r.request is None,
        v.request(r) matches Ok(q) ==> q.provider == v.definition->0.provider && Some(q.endpoint)
            == v.definition->0.endpoint && Some(q.slot) == v.definition->0.slot,
        v.definition is Some && v.definition->0.endpoint is Some && v.definition->0.slot is Some ==> (
        r.request matches Some(p) ==> v.request(r) == Err::<RequestView, Seq<char>>(p)),
{
}

/// A size is a positive number of 32 bits: the context at least two tokens, and the output is asked
/// for only behind it.
pub proof fn law_sizes(v: UiView, value: Seq<char>, r: RulingsView, c: CandidateView, n: nat)
    requires
        v.candidate == Some(c),
    ensures
        number::parsed_within(value, 0xffff_ffff) is None ==> v.entered_size(
            Field::Context,
            value,
            r,
        ).problem is Some && v.entered_size(Field::Output, value, r).problem is Some,
        number::parsed_within(value, 0xffff_ffff) == Some(0nat) ==> v.entered_size(
            Field::Context,
            value,
            r,
        ).problem is Some && v.entered_size(Field::Output, value, r).problem is Some,
        number::parsed_within(value, 0xffff_ffff) == Some(1nat) ==> v.entered_size(
            Field::Context,
            value,
            r,
        ).problem is Some,
        number::parsed_within(value, 0xffff_ffff) == Some(n) && n >= 2 ==> {
            let o = v.entered_size(Field::Context, value, r);
            &&& o.problem is None
            &&& o.ui.candidate == Some(CandidateView { context: Some(n as u32), ..c })
            &&& o.ui.stage == StageView::Text(Field::Output)
        },
        number::parsed_within(value, 0xffff_ffff) == Some(n) && n > 0 && c.context is None
            ==> v.entered_size(Field::Output, value, r).problem is Some,
{
    reveal(UiView::entered_size);
}

/// A model is saved with the deployment that it belongs to and the sizes that were given, and only
/// where both are smaller than they may be: the output less than the context.
pub proof fn law_limited(
    v: UiView,
    r: RulingsView,
    c: CandidateView,
    d: DefinitionView,
    deployment: Seq<char>,
    context: u32,
    output: u32,
)
    requires
        v.candidate == Some(c),
        c.context == Some(context),
        c.output == Some(output),
        v.definition == Some(d),
        d.deployment == Some(deployment),
        v.feature,
        !v.declare_effort,
        r.limits is None,
        r.route is None,
    ensures
        output < context ==> v.limiting(r).op == Some(
            OperationView::Save {
                definition: d.declaring(
                    c.id,
                    Limits {
                        context,
                        default_output: if output < 4096 {
                            output
                        } else {
                            4096
                        },
                        max_output: output,
                    },
                ),
                model: ModelRefView { deployment, model: c.id },
            },
        ),
        output >= context ==> v.limiting(r).op is None && v.limiting(r).ui.stage == StageView::Text(
            Field::Output,
        ),
{
    reveal(UiView::limiting);
    reveal(UiView::saved);
}

/// A model is saved as the default where that is asked for or no conversation is attached; choosing
/// it otherwise changes no configuration.
pub proof fn law_selecting(v: UiView, s: SelectionView, default: bool, r: RulingsView)
    requires
        v.feature,
    ensures
        ({
            let o = v.choosing(ChoiceView::Effort(s), default, r);
            let saves = default || !v.attached || v.save_default;
            &&& saves ==> o.op == Some(OperationView::Default(s)) && o.ui.mutation && o.ui.pending
                && o.ui.chosen == v.chosen
            &&& !saves ==> o.op is None && o.ui.chosen == Some(s) && !o.ui.active
        }),
{
    reveal(UiView::choosing);
    reveal(UiView::following);
    reveal(UiView::selecting);
}

/// A deployment takes a name that no other has; its own it may keep.
pub proof fn law_entered_name(v: UiView, value: Seq<char>, r: RulingsView, d: DefinitionView)
    requires
        v.definition == Some(d),
        r.value is None,
    ensures
        value.len() > 0 && v.deployments.contains(value) && !(v.existing && d.deployment == Some(value))
            ==> v.entered_name(value, r).problem is Some,
        !v.deployments.contains(value) && v.view.providers is None ==> v.entered_name(value, r)
            == v.naming(value, r),
        forall|i: int|
            v.view.providers is Some && 0 <= i < v.view.providers->0.len() && value.len() > 0
                && (#[trigger] v.view.providers->0[i]).deployment == Some(value) && !(v.existing
                && d.deployment == Some(value)) ==> v.entered_name(value, r).problem is Some,
        v.existing && d.deployment == Some(value) ==> v.entered_name(value, r) == v.naming(value, r),
{
    reveal(UiView::entered_name);
}

/// A new deployment of a provider that has none uses the place named "default" for its key, and one
/// of a provider that has others a place of its own; one that keeps its name keeps its place.
pub proof fn law_named(v: UiView, name: Seq<char>, d: DefinitionView)
    requires
        v.definition == Some(d),
    ensures
        v.named(name).deployment == Some(name),
        v.named(name).provider == d.provider,
        v.named(name).endpoint == d.endpoint,
        v.existing && d.deployment == Some(name) ==> v.named(name).slot == d.slot,
        !v.existing && v.provider_known(d.provider) ==> v.named(name).slot == Some(name),
        !v.existing && !v.provider_known(d.provider) ==> v.named(name).slot == Some("default"@),
{
}

/// What each choice does: it goes on with the provider, the deployment or the model that it names.
pub proof fn law_setup_choices(v: UiView, p: ProviderKind, d: DefinitionView, r: RulingsView)
    ensures
        v.choosing(ChoiceView::DiscoverExisting(d), false, r).ui.definition == Some(d),
        v.choosing(ChoiceView::DiscoverExisting(d), false, r).op is None,
        v.choosing(ChoiceView::Manual, false, r).ui.stage == StageView::Text(Field::Model),
        v.choosing(ChoiceView::Manual, false, r).ui.declare_effort,
        v.choosing(ChoiceView::Connection, false, r).ui.editing_connection,
        v.definition is Some ==> v.choosing(ChoiceView::Connection, false, r).ui.stage
            == StageView::Text(Field::Name),
        v.feature && !(v.pending && v.mutation) ==> v.choosing(ChoiceView::Login, false, r).op
            == Some(OperationView::Open(Opening::Login(None))),
        v.feature && !(v.pending && v.mutation) ==> v.choosing(ChoiceView::Refresh, false, r).op
            == Some(OperationView::Open(Opening::Models)),
        v.choosing(ChoiceView::Existing(d), false, r).ui.definition == Some(d),
        v.choosing(ChoiceView::Existing(d), false, r).ui.existing,
{
    reveal(UiView::choosing);
    reveal(UiView::following);
    reveal(UiView::discovered);
    reveal(UiView::connecting);
    reveal(UiView::opening);
    reveal(UiView::credentials);
}

/// Reading the status of a key asks for that of the provider and the place that are set up, and
/// begins with an empty one.
pub proof fn law_credentials(
    v: UiView,
    r: RulingsView,
    d: DefinitionView,
    endpoint: Seq<char>,
    slot: Seq<char>,
)
    requires
        v.definition == Some(d),
        d.endpoint == Some(endpoint),
        d.slot == Some(slot),
        r.request is None,
        v.feature,
    ensures
        v.credentials(r).op == Some(
            OperationView::CredentialStatus { provider: d.provider, slot },
        ),
        v.credentials(r).ui.secret.len() == 0,
        v.credentials(r).ui.credential is None,
        v.credentials(r).ui.stage is Secret,
        v.credentials(r).ui.pending && !v.credentials(r).ui.mutation,
{
    reveal(UiView::credentials);
}

/// The three providers to log in with, each under its own name.
pub proof fn law_provider_choices()
    ensures
        UiView::provider_choices().len() == 3,
        UiView::provider_choices()[0] == (
            "DeepSeek"@,
            ChoiceView::Provider(ProviderKind::Deepseek),
        ),
        UiView::provider_choices()[1] == ("OpenAI"@, ChoiceView::Provider(ProviderKind::Openai)),
        UiView::provider_choices()[2] == (
            "OpenAI-compatible"@,
            ChoiceView::Provider(ProviderKind::OpenaiCompatible),
        ),
{
}

/// The efforts of a model: the first leaves it to the provider, and each other is the one that its
/// entry names, all for that model.
pub proof fn law_effort_choices(
    model: ModelRefView,
    supported: Seq<Seq<char>>,
    default: Option<Seq<char>>,
    i: int,
)
    requires
        0 <= i < supported.len(),
    ensures
        ({
            let c = UiView::effort_choices(model, supported, default);
            &&& c.len() == supported.len() + 1
            &&& c[0].1 == ChoiceView::Effort(SelectionView { model, effort: None })
            &&& c[i + 1] == (
                supported[i],
                ChoiceView::Effort(SelectionView { model, effort: Some(supported[i]) }),
            )
            &&& default is None ==> c[0].0 == "Provider default"@
            &&& default matches Some(e) ==> c[0].0 == "Provider default ("@ + e + ")"@
        }),
{
}

/// A configured model is listed under its deployment and its name, and leads to itself.
pub proof fn law_route_entries(routes: Seq<ModelRefView>, i: int)
    requires
        0 <= i < routes.len(),
    ensures
        UiView::route_entries(routes).len() == routes.len(),
        UiView::route_entries(routes)[i] == (
            routes[i].deployment + "/"@ + routes[i].model,
            ChoiceView::Route(routes[i]),
        ),
{
}

/// Control and C closes, whatever is under way, and asks for nothing; while something is under way
/// no other key but Escape does anything.
pub proof fn law_setup_keys(
    v: UiView,
    key: KeyEvent,
    r: RulingsView,
    w: UiView,
    op: Option<OperationView>,
)
    requires
        v.keyed(key, r, w, op),
    ensures
        key.control && key.code == KeyCode::Char('c') ==> !w.active && op is None && w.secret.len()
            == 0 && w.chosen is None,
        v.pending && !(key.code is Escape) && !(key.control && key.code == KeyCode::Char('c')) ==> w
            == v && op is None,
{
    reveal(UiView::keyed);
}

/// Going back leads to the screen before, and out where there is none; a change that is being made
/// goes on.
pub proof fn law_backed(v: UiView, r: RulingsView)
    ensures
        v.integration is Some ==> !v.backed(r).ui.active,
        v.mutation && v.pending ==> !v.backed(r).ui.active && v.backed(r).ui.pending && v.backed(
            r,
        ).op is None,
        v.integration is None && !(v.mutation && v.pending) && v.back.len() == 0 ==> !v.backed(
            r,
        ).ui.active,
        v.integration is None && !(v.mutation && v.pending) && v.back.len() > 0 && !(v.back.last().stage
            is Secret) ==> {
            let o = v.backed(r);
            let s = v.back.last();
            &&& o.op is None
            &&& o.ui.active == v.active
            &&& o.ui.stage == s.stage && o.ui.title == s.title && o.ui.editor == s.editor
            &&& o.ui.selected == s.selected && o.ui.definition == s.definition
            &&& o.ui.back == v.back.drop_last()
        },
{
    reveal(UiView::backed);
}

/// What comes back leads on: a saved model is described, a saved key is used to look for models, and
/// what was chosen ends setting up.
pub proof fn law_setup_replies(
    v: UiView,
    m: ModelRefView,
    s: SelectionView,
    snapshot: SnapshotView,
    r: RulingsView,
)
    requires
        v.integration is None,
        v.followup,
    ensures
        v.replied(Ok(UpdateView::Saved(m)), snapshot, r).op == Some(OperationView::Describe(m)),
        v.replied(Ok(UpdateView::Selected(s)), snapshot, r).ui.chosen == Some(s),
        !v.replied(Ok(UpdateView::Selected(s)), snapshot, r).ui.active,
        !v.replied(Ok(UpdateView::Selected(s)), snapshot, r).ui.pending,
        v.replied(Ok(UpdateView::CredentialStatus), snapshot, r).ui.stage is Secret,
        v.feature ==> v.replied(Ok(UpdateView::Credential), snapshot, r).op is Some,
{
    reveal(UiView::replied);
    reveal(UiView::updated);
    reveal(UiView::describing);
    reveal(UiView::credential_screen);
    reveal(UiView::discovering);
}

/// The status of a key counts for the deployment that is set up alone.
pub proof fn law_matching_credential(v: UiView, d: DefinitionView, p: ProviderKind, slot: Seq<char>, c: CredentialView)
    requires
        v.view.credential == Some((p, slot, c)),
        v.definition == Some(d),
    ensures
        v.matching_credential() == (if p == d.provider && d.slot == Some(slot) {
            Some(c)
        } else {
            None
        }),
{
}

/// Of the entries of a menu those are listed that contain the filter, in order.
pub proof fn law_filtered(items: Seq<(Seq<char>, ChoiceView)>, query: Seq<char>, n: int)
    requires
        0 <= n < items.len(),
    ensures
        text::includes(setup_ui::lowered(items[n].0), setup_ui::lowered(query))
            ==> setup_ui::filtered(items, query, n + 1) == setup_ui::filtered(items, query, n).push(
            n as usize,
        ),
        !text::includes(setup_ui::lowered(items[n].0), setup_ui::lowered(query))
            ==> setup_ui::filtered(items, query, n + 1) == setup_ui::filtered(items, query, n),
        setup_ui::filtered(items, query, 0).len() == 0,
{
}

/// The texts between commas are taken without the white space around them.
pub proof fn law_listed_ids(a: Seq<char>, b: Seq<char>)
    requires
        forall|i: int| 0 <= i < a.len() ==> a[i] != ',',
    ensures
        setup_ui::listed_ids(a) == seq![text::trimmed(a)],
        setup_ui::listed_ids(a + seq![','] + b) == seq![text::trimmed(a)] + setup_ui::listed_ids(b),
{
    let s = a + seq![','] + b;
    lemma_comma(a, b);
    assert(s.take(a.len() as int) =~= a);
    assert(s.skip(a.len() as int + 1) =~= b);
}

proof fn lemma_comma(a: Seq<char>, b: Seq<char>)
    requires
        forall|i: int| 0 <= i < a.len() ==> a[i] != ',',
    ensures
        setup_ui::comma_at(a) == a.len(),
        setup_ui::comma_at(a + seq![','] + b) == a.len(),
    decreases a.len(),
{
    let s = a + seq![','] + b;
    if a.len() > 0 {
        lemma_comma(a.drop_first(), b);
        assert(s.drop_first() =~= a.drop_first() + seq![','] + b);
        assert(s[0] == a[0]);
    } else {
        assert(s[0] == ',');
    }
}

/// Of a key the screen shows eight dots where there is any of it, and nothing where there is none.
pub proof fn law_masked(v: UiView)
    requires
        v.stage is Secret,
    ensures
        v.secret.len() > 0 ==> v.shown_input().text == "••••••••"@,
        v.secret.len() == 0 ==> v.shown_input().text.len() == 0,
{
}

/// What the screen says of a key that cannot be read names what is wrong with the place it is kept
/// in.
pub proof fn law_unavailable_key(v: UiView, c: CredentialView, failure: StoreFailure, reason: Seq<char>)
    requires
        v.credential == Some(c),
        c.store_path is None,
        c.availability == (AvailabilityView::Unavailable { failure, reason }),
    ensures
        failure is Permissions ==> v.credential_text() == reason + ".\n"@
            + "Check ownership; the directory needs mode 0700 and the file needs 0600."@
            + "\nEnter retries; Esc returns."@,
        failure is Corrupt ==> v.credential_text() == reason + ".\n"@
            + "Repair the credential JSON; the original file has been preserved."@
            + "\nEnter retries; Esc returns."@,
        failure is UnsafePath ==> v.credential_text() == reason + ".\n"@
            + "Use an owned directory and regular file without links."@
            + "\nEnter retries; Esc returns."@,
{
}

/// A screen shows 256 entries at most, around the one that is selected.
pub proof fn law_window(v: UiView)
    requires
        v.selected < v.indices().len(),
    ensures
        0 <= v.window() <= v.selected < v.window() + 256,
        v.indices().len() <= 256 ==> v.window() == 0,
        v.window() + v.shown_items().len() <= v.indices().len(),
        v.shown_items().len() <= 256,
{
}

/// Opening again begins with nothing entered and asks for the configuration, with the beginning of
/// the command that it was opened by.
pub proof fn law_opening(v: UiView, attached: bool)
    requires
        v.feature,
        !(v.pending && v.mutation),
    ensures
        v.opening(Opening::Models, attached).op == Some(OperationView::Open(Opening::Models)),
        v.opening(Opening::Effort, attached).op == Some(OperationView::Open(Opening::Effort)),
        v.opening(Opening::Models, attached).ui.prefix == Some("/model "@),
        v.opening(Opening::Effort, attached).ui.prefix == Some("/effort "@),
        v.opening(Opening::Login(None), attached).ui.prefix is None,
        v.opening(Opening::Models, attached).ui.secret.len() == 0,
        v.opening(Opening::Models, attached).ui.attached == attached,
        v.opening(Opening::Models, attached).ui.definition is None,
        v.opening(Opening::Models, attached).ui.active,
{
    reveal(UiView::opening);
}

/// Up and Down move the selection of a menu by one entry and stop at its ends; nothing else changes
/// but what was told.
pub proof fn law_setup_menu_moves(
    v: UiView,
    key: KeyEvent,
    r: RulingsView,
    w: UiView,
    op: Option<OperationView>,
)
    requires
        v.keyed(key, r, w, op),
        !v.pending,
        v.stage is Menu,
        v.indices().len() <= usize::MAX,
    ensures
        key.code is Up ==> op is None && w == (UiView {
            status: seq![],
            selected: if v.selected == 0 {
                0
            } else {
                (v.selected - 1) as usize
            },
            ..v
        }),
        key.code is Down && v.selected + 1 < v.indices().len() ==> op is None && w == (UiView {
            status: seq![],
            selected: (v.selected + 1) as usize,
            ..v
        }),
        key.code is Down && v.selected + 1 == v.indices().len() ==> op is None && w == (UiView {
            status: seq![],
            ..v
        }),
{
    reveal(UiView::keyed);
    reveal(UiView::stage_keyed);
    reveal(UiView::menu_keyed);
    reveal(UiView::finished);
    reveal(UiView::indices);
}

/// Enter follows the entry that is selected, and Control with S follows it and saves it as the
/// default. Where that fails it is told and nothing is asked for; where it does not, the screen that
/// was left is the one that Escape leads back to, of sixteen at most.
pub proof fn law_setup_menu_choices(
    v: UiView,
    key: KeyEvent,
    r: RulingsView,
    w: UiView,
    op: Option<OperationView>,
    label: Seq<char>,
    choice: ChoiceView,
)
    requires
        v.keyed(key, r, w, op),
        !v.pending,
        v.stage is Menu,
        v.picked() == Some((label, choice)),
        (key.code is Enter && !key.control) || (key.control && key.code == KeyCode::Char('s')),
    ensures
        ({
            let o = v.choosing(choice, key.code == KeyCode::Char('s'), r);
            &&& o.problem matches Some(p) ==> op is None && w == (UiView { status: p, ..o.ui })
            &&& o.problem is None ==> op == o.op
            &&& o.problem is None && o.ui.back.len() >= 16 ==> w == o.ui
            &&& o.problem is None && o.ui.back.len() < 16 ==> {
                &&& w.back.len() == o.ui.back.len() + 1
                &&& w.back.last().stage == v.stage
                &&& w.back.last().title == v.title
                &&& w.back.last().selected == v.selected
                &&& w.back.last().editor == v.editor
                &&& w.back.last().definition == v.definition
                &&& w == (UiView { back: w.back, ..o.ui })
            }
        }),
{
    reveal(UiView::keyed);
    reveal(UiView::stage_keyed);
    reveal(UiView::menu_keyed);
    reveal(UiView::accepted);
    reveal(UiView::finished);
}

/// What is pasted into the screen for a key is put behind it without the white space around it, where
/// it may be typed; while something is under way nothing is taken.
pub proof fn law_pasted_key(v: UiView, s: Seq<char>, w: UiView)
    requires
        v.pasted(s, w),
    ensures
        v.pending ==> w.secret == v.secret && w.editor == v.editor && w.stage == v.stage,
        !v.pending && v.stage is Secret && v.typed(text::trimmed(s)).problem is None ==> w.secret
            == v.secret + text::trimmed(s),
        !v.pending && v.stage is Secret && v.typed(text::trimmed(s)).problem is Some ==> w.secret
            == v.secret && Some(w.status) == v.typed(text::trimmed(s)).problem,
        !(v.stage is Secret) ==> w.secret == v.secret,
{
    reveal(UiView::pasted);
    reveal(UiView::typed);
    reveal(UiView::inserted_by);
}

/// Of the models that were found each is offered under its name, and behind them what else can be
/// done.
pub proof fn law_discovered(v: UiView, models: Seq<CandidateView>, i: int)
    requires
        0 <= i < models.len(),
    ensures
        ({
            let n = models.len() as int;
            let items = v.discovered(models).items();
            &&& items.len() == n + 4
            &&& items[i] == (models[i].id, ChoiceView::Candidate(models[i]))
            &&& items[n] == ("Discover / refresh online…"@, ChoiceView::Discover)
            &&& items[n + 1] == ("Enter model manually…"@, ChoiceView::Manual)
            &&& items[n + 2] == ("Change API key…"@, ChoiceView::Credentials)
            &&& items[n + 3] == ("Edit connection settings…"@, ChoiceView::Connection)
            &&& v.discovered(models).prefix == Some("/model "@)
        }),
{
    reveal(UiView::discovered);
}

/// The models to choose from, each under its deployment and its name, and at the end logging in.
pub proof fn law_routed(v: UiView, routes: Seq<ModelRefView>, i: int)
    requires
        0 <= i < routes.len(),
    ensures
        v.routed(routes).items()[i] == (
            routes[i].deployment + "/"@ + routes[i].model,
            ChoiceView::Route(routes[i]),
        ),
        v.routed(routes).items().last() == ("Log in / add provider…"@, ChoiceView::Login),
        v.attached ==> v.routed(routes).title == "Model for next request"@,
        !v.attached ==> v.routed(routes).title == "Set default and start"@,
{
    reveal(UiView::routed);
}

/// The efforts that are declared for a model are those between the commas, and one of them or none is
/// its default.
pub proof fn law_declared_efforts(
    v: UiView,
    value: Seq<char>,
    r: RulingsView,
    c: CandidateView,
    d: DefinitionView,
    i: int,
)
    requires
        value.len() > 0,
        r.value is None,
        v.candidate == Some(c),
        v.definition == Some(d),
        0 <= i < setup_ui::listed_ids(value).len(),
    ensures
        ({
            let ids = setup_ui::listed_ids(value);
            let o = v.entered_efforts(value, r);
            &&& o.op is None && o.problem is None
            &&& o.ui.items().len() == ids.len() + 1
            &&& o.ui.items()[0].1 == ChoiceView::EffortDefault(None)
            &&& o.ui.items()[i + 1] == (ids[i], ChoiceView::EffortDefault(Some(ids[i])))
            &&& o.ui.definition == Some(
                d.with_effort(EffortView { id: c.id, supported: ids, default: None }),
            )
        }),
{
    reveal(UiView::entered_efforts);
}

/// The deployments to log in with are those of the provider that was chosen, each under its name, and
/// behind them a new one.
pub proof fn law_logging_in(v: UiView, provider: ProviderKind, r: RulingsView, k: int)
    requires
        v.view.providers is Some,
        0 <= k < v.view.providers->0.len(),
        v.view.providers->0[k].provider == provider,
    ensures
        ({
            let o = v.logging_in(provider, r);
            let items = o.ui.items();
            &&& o.op is None && o.problem is None
            &&& items.last() == ("New deployment…"@, ChoiceView::New(provider))
            &&& forall|i: int|
                0 <= i < items.len() - 1 ==> {
                    &&& (#[trigger] items[i]).1 is Existing
                    &&& items[i].1->Existing_0.provider == provider
                    &&& items[i].1->Existing_0.deployment matches Some(name) ==> items[i].0
                        == "Use "@ + name
                }
        }),
{
    reveal(UiView::logging_in);
    lemma_usable(v, provider, v.view.providers->0.len() as int, k);
}

proof fn lemma_usable(v: UiView, provider: ProviderKind, n: int, k: int)
    requires
        v.view.providers is Some,
        0 <= n <= v.view.providers->0.len(),
    ensures
        forall|i: int|
            0 <= i < v.usable(provider, n).len() ==> {
                &&& (#[trigger] v.usable(provider, n)[i]).1 is Existing
                &&& v.usable(provider, n)[i].1->Existing_0.provider == provider
                &&& v.usable(provider, n)[i].1->Existing_0.deployment matches Some(name)
                    ==> v.usable(provider, n)[i].0 == "Use "@ + name
            },
        0 <= k < n && v.view.providers->0[k].provider == provider ==> v.usable(provider, n).len()
            > 0,
    decreases n,
{
    if n > 0 {
        lemma_usable(v, provider, n - 1, k);
    }
}

/// The endpoint of a deployment is asked for where it can be another one than its provider's own, and
/// otherwise the key is the next thing.
pub proof fn law_naming(v: UiView, name: Seq<char>, r: RulingsView, d: DefinitionView)
    requires
        v.definition == Some(d),
    ensures
        d.provider is OpenaiCompatible || v.existing || v.editing_connection ==> v.naming(
            name,
            r,
        ).ui.stage == StageView::Text(Field::Endpoint) && v.naming(name, r).op is None,
        !(d.provider is OpenaiCompatible || v.existing || v.editing_connection) ==> !(v.naming(
            name,
            r,
        ).ui.stage == StageView::Text(Field::Endpoint)) || v.stage == StageView::Text(
            Field::Endpoint,
        ),
{
    reveal(UiView::naming);
    reveal(UiView::credentials);
}

/// The screen for the key of an integration begins empty and asks for its status first, unless a
/// change is being made.
pub proof fn law_integrating(v: UiView, target: IntegrationView)
    ensures
        ({
            let o = v.integrating(target);
            let busy = v.pending && v.mutation;
            &&& o.problem is None && o.ui.active
            &&& busy ==> o.op is None && o.ui.pending && o.ui.secret == v.secret
            &&& !busy ==> o.op == Some(OperationView::ReadIntegration) && o.ui.secret.len() == 0
                && o.ui.integration == Some(target) && o.ui.credential is None && o.ui.stage
                is Secret && o.ui.pending && !o.ui.mutation
        }),
{
    reveal(UiView::integrating);
}

/// What came back of the key of an integration: its status is shown, and after a failure nothing is
/// known of it.
pub proof fn law_integrated(
    v: UiView,
    status: Option<CredentialView>,
    saved: bool,
    problem: Seq<char>,
    snapshot: SnapshotView,
    r: RulingsView,
)
    requires
        v.integration is Some,
    ensures
        ({
            let o = v.replied(
                Ok(UpdateView::IntegrationCredential { status, saved }),
                snapshot,
                r,
            );
            o.op is None && o.ui.credential == status && !o.ui.pending && !o.ui.mutation
        }),
        ({
            let o = v.replied(Err(problem), snapshot, r);
            o.op is None && o.ui.credential is None && !o.ui.pending && !o.ui.mutation
        }),
{
    reveal(UiView::replied);
    reveal(UiView::integrated);
}

/// What an opened configuration shows: the providers, the deployments of one, the models, or the
/// efforts of the model that is in use.
pub proof fn law_opened(v: UiView, routes: Seq<ModelRefView>, r: RulingsView, s: SelectionView)
    ensures
        v.opened(Opening::Login(None), routes, r).ui.items() == UiView::provider_choices(),
        v.opened(Opening::Login(None), routes, r).op is None,
        v.opened(Opening::Models, routes, r).ui.items().len() > routes.len(),
        v.opened(Opening::Models, routes, r).op is None,
        v.effort_selection == Some(s) ==> v.opened(Opening::Effort, routes, r).op == Some(
            OperationView::Describe(s.model),
        ),
        v.effort_selection is None ==> v.opened(Opening::Effort, routes, r).op is None,
{
    reveal(UiView::opened);
    reveal(UiView::routed);
    reveal(UiView::describing);
}

/// What is told once setting up was left: that a change is still being made, or what came of one.
pub proof fn law_notice(v: UiView)
    ensures
        v.pending && v.mutation ==> v.notice() == "Save pending; reopen setup to observe."@,
        !(v.pending && v.mutation) && !v.followup ==> v.notice() == v.status,
        !(v.pending && v.mutation) && v.followup ==> v.notice().len() == 0,
{
}

/// What is entered into a field goes on without the white space around it.
pub proof fn law_entered(v: UiView, r: RulingsView, d: DefinitionView)
    requires
        v.definition == Some(d),
        d.slot is Some,
        r.request is None,
        v.feature,
    ensures
        v.entered(Field::Endpoint, r).ui.definition == Some(
            DefinitionView { endpoint: Some(text::trimmed(v.editor.text)), ..d },
        ),
        v.entered(Field::Endpoint, r).op is Some,
        v.entered(Field::Name, r) == v.entered_name(text::trimmed(v.editor.text), r),
        v.entered(Field::Context, r) == v.entered_size(
            Field::Context,
            text::trimmed(v.editor.text),
            r,
        ),
        v.entered(Field::Output, r) == v.entered_size(
            Field::Output,
            text::trimmed(v.editor.text),
            r,
        ),
{
    reveal(UiView::entered);
    reveal(UiView::entered_endpoint);
    reveal(UiView::credentials);
}

} // verus!
