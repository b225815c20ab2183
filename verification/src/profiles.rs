//! The pages on which the parts of host profiles are looked at, changed and granted.
//!
//! Profiles, their parts, proposals and grants are named by numbers that their owner gives.
use vstd::prelude::*;
use vstd::string::*;
use crate::text::{cat2, cat3, cat4, cat5};

verus! {

/// The grants or receipts of a page.
pub const PAGE_ENTRIES: usize = 64;

/// A change of a part.
#[derive(Clone, Copy, Debug, PartialEq, Eq, Structural)]
pub enum ChangeKind {
    Enable,
    Disable,
    Configuration,
}

/// What a change is called.
pub open spec fn kind_name(k: ChangeKind) -> Seq<char> {
    match k {
        ChangeKind::Enable => "Enable"@,
        ChangeKind::Disable => "Disable"@,
        ChangeKind::Configuration => "Configuration"@,
    }
}

fn name_of(k: ChangeKind) -> (r: &'static str)
    ensures
        r@ == kind_name(k),
{
    match k {
        ChangeKind::Enable => "Enable",
        ChangeKind::Disable => "Disable",
        ChangeKind::Configuration => "Configuration",
    }
}

/// Who a change is granted to.
#[derive(Clone, Copy, Debug, PartialEq, Eq, Structural)]
pub enum Grantee {
    Local,
    /// An agent or a device whose name was entered.
    Entered { agent: bool },
}

/// What is asked of the owner.
#[derive(Clone, Copy, Debug, PartialEq, Eq, Structural)]
pub enum Command {
    Read { profile: Option<u64>, after: Option<u64> },
    Enabled { target: u64, enabled: bool },
    /// The configuration is what was entered.
    Configuration { target: u64 },
    Commit { ticket: u64 },
    Discard { ticket: u64 },
    Receipt { ticket: u64 },
    Grants,
    Grant { grantee: Grantee, target: u64, operation: ChangeKind },
    /// The grant of a number is taken back.
    Revoke { scope: u64 },
}

/// What is shown once the owner has answered.
#[derive(Clone, Copy, Debug, PartialEq, Eq, Structural)]
pub enum After {
    Browse,
    Leaf(u64),
    Review,
    Receipt,
    Grant(u64),
    Grants(usize),
}

/// What can be chosen.
#[derive(Clone, Copy, Debug, PartialEq, Eq, Structural)]
pub enum Choice {
    Run(Command, After),
    Leaf(u64),
    Review(u64),
    Configuration(u64),
    GrantKind(u64),
    GrantPrincipal(u64, ChangeKind),
    GrantInput(u64, ChangeKind, bool),
    Grants(usize),
    Receipts(usize),
    Browse,
    Close,
}

/// Something with a name.
#[derive(Debug)]
pub struct Named {
    pub handle: u64,
    pub name: String,
}

/// A part of a profile.
#[derive(Debug)]
pub struct Target {
    pub handle: u64,
    pub profile: String,
    pub leaf: String,
}

/// What is known of a part.
#[derive(Debug)]
pub struct Leaf {
    pub target: Target,
    pub plugin: String,
    pub enabled: bool,
    pub effective_enabled: bool,
    /// The changes that are granted.
    pub allowed: Vec<ChangeKind>,
}

/// The profiles and parts of a page.
#[derive(Debug)]
pub struct Catalog {
    pub principal: String,
    pub profiles: Vec<Named>,
    pub leaves: Vec<Leaf>,
    pub next: Option<u64>,
}

/// A change that was prepared.
#[derive(Debug)]
pub struct Preview {
    pub ticket: u64,
    pub ticket_name: String,
    pub digest: String,
    pub target: Target,
    pub plugin: String,
    pub operation: ChangeKind,
    pub previous_enabled: bool,
    pub enabled: bool,
    pub effective_enabled: bool,
}

/// What came of a change.
#[derive(Debug)]
pub enum Outcome {
    Saved { directory_synced: bool, application: String },
    Pending,
    Unknown,
    Failed(String),
}

/// What a change that was saved left.
#[derive(Debug)]
pub struct Receipt {
    pub preview: Preview,
    pub outcome: Outcome,
}

/// A grant.
#[derive(Debug)]
pub struct Scope {
    pub handle: u64,
    pub principal: String,
    pub target: Target,
    pub operation: ChangeKind,
}

/// The grants.
#[derive(Debug)]
pub struct Grants {
    pub revision: String,
    pub scopes: Vec<Scope>,
}

/// What the owner told.
#[derive(Debug)]
pub struct LeafView {
    pub catalog: Option<Catalog>,
    /// The profile that was asked for.
    pub profile: Option<Named>,
    pub previews: Vec<Preview>,
    pub receipts: Vec<Named>,
    pub receipt: Option<Receipt>,
    pub can_grant: bool,
    pub grants: Option<Grants>,
    pub notice: Option<String>,
}

/// What the entries of a menu say and do.
pub open spec fn items_of(v: Seq<(String, Choice)>) -> Seq<(Seq<char>, Choice)> {
    Seq::new(v.len(), |i: int| (v[i].0@, v[i].1))
}

fn push(items: &mut Vec<(String, Choice)>, label: String, choice: Choice)
    ensures
        items_of(final(items)@) == items_of(old(items)@).push((label@, choice)),
{
    let ghost before = items_of(items@);
    let ghost s = label@;
    items.push((label, choice));
    proof {
        assert(items_of(items@) =~= before.push((s, choice)));
    }
}

fn no_items() -> (r: Vec<(String, Choice)>)
    ensures
        items_of(r@) == Seq::<(Seq<char>, Choice)>::empty(),
{
    let r: Vec<(String, Choice)> = Vec::new();
    proof {
        assert(items_of(r@) =~= Seq::<(Seq<char>, Choice)>::empty());
    }
    r
}

/// A page.
#[derive(Debug)]
pub struct Page {
    pub title: String,
    pub explanation: String,
    pub items: Vec<(String, Choice)>,
    /// Whether the explanation is read before the entries are shown.
    pub details: bool,
}

/// What a [`Page`] says.
#[verifier::ext_equal]
pub struct PageView {
    pub title: Seq<char>,
    pub explanation: Seq<char>,
    pub items: Seq<(Seq<char>, Choice)>,
    pub details: bool,
}

impl View for Page {
    type V = PageView;

    open spec fn view(&self) -> PageView {
        PageView {
            title: self.title@,
            explanation: self.explanation@,
            items: items_of(self.items@),
            details: self.details,
        }
    }
}

/// A truth value as it is shown.
pub open spec fn truth(b: bool) -> Seq<char> {
    if b {
        "true"@
    } else {
        "false"@
    }
}

fn truth_of(b: bool) -> (r: &'static str)
    ensures
        r@ == truth(b),
{
    if b {
        "true"
    } else {
        "false"
    }
}

/// The entry that leads to the pages of profiles.
pub open spec fn read_choice(profile: Option<u64>, after: Option<u64>) -> Choice {
    Choice::Run(Command::Read { profile, after }, After::Browse)
}

/// The first `n` profiles.
pub open spec fn profile_items(v: Seq<Named>, n: int) -> Seq<(Seq<char>, Choice)>
    decreases n,
{
    if n <= 0 {
        seq![("Browse Host Profiles"@, read_choice(None, None))]
    } else {
        profile_items(v, n - 1).push(
            ("Open Profile "@ + v[n - 1].name@, read_choice(Some(v[n - 1].handle), None)),
        )
    }
}

/// The first `n` parts, after other entries.
pub open spec fn leaf_items(
    before: Seq<(Seq<char>, Choice)>,
    v: Seq<Leaf>,
    n: int,
) -> Seq<(Seq<char>, Choice)>
    decreases n,
{
    if n <= 0 {
        before
    } else {
        leaf_items(before, v, n - 1).push(
            (
                v[n - 1].target.leaf@ + " · "@ + (if v[n - 1].enabled {
                    "enabled"@
                } else {
                    "disabled"@
                }),
                Choice::Leaf(v[n - 1].target.handle),
            ),
        )
    }
}

/// The first `n` proposals, after other entries.
pub open spec fn preview_items(
    before: Seq<(Seq<char>, Choice)>,
    v: Seq<Preview>,
    n: int,
) -> Seq<(Seq<char>, Choice)>
    decreases n,
{
    if n <= 0 {
        before
    } else {
        preview_items(before, v, n - 1).push(
            (
                "Review "@ + kind_name(v[n - 1].operation) + " · "@ + v[n - 1].target.profile@
                    + " / "@ + v[n - 1].target.leaf@,
                Choice::Review(v[n - 1].ticket),
            ),
        )
    }
}

/// The profile that was asked for.
pub open spec fn asked(p: Option<Named>) -> Option<u64> {
    match p {
        Some(p) => Some(p.handle),
        None => None,
    }
}

/// The entries of a catalog.
pub open spec fn catalog_items(c: Catalog, profile: Option<u64>) -> Seq<(Seq<char>, Choice)> {
    let leaves = leaf_items(
        profile_items(c.profiles@, c.profiles@.len() as int),
        c.leaves@,
        c.leaves@.len() as int,
    );
    match c.next {
        Some(after) => leaves.push(("Next source page"@, read_choice(profile, Some(after)))),
        None => leaves,
    }
}

fn list_catalog(c: &Catalog, profile: Option<u64>) -> (items: Vec<(String, Choice)>)
    ensures
        items_of(items@) == catalog_items(*c, profile),
{
    let mut items = no_items();
    push(
        &mut items,
        "Browse Host Profiles".to_owned(),
        Choice::Run(Command::Read { profile: None, after: None }, After::Browse),
    );
    proof {
        assert(items_of(items@) =~= profile_items(c.profiles@, 0));
    }
    let mut i: usize = 0;
    while i < c.profiles.len()
        invariant
            i <= c.profiles@.len(),
            items_of(items@) == profile_items(c.profiles@, i as int),
        decreases c.profiles@.len() - i,
    {
        push(
            &mut items,
            cat2("Open Profile ", c.profiles[i].name.as_str()),
            Choice::Run(
                Command::Read { profile: Some(c.profiles[i].handle), after: None },
                After::Browse,
            ),
        );
        i += 1;
    }
    let ghost before = items_of(items@);
    let mut k: usize = 0;
    while k < c.leaves.len()
        invariant
            k <= c.leaves@.len(),
            items_of(items@) == leaf_items(before, c.leaves@, k as int),
        decreases c.leaves@.len() - k,
    {
        let state: &'static str = if c.leaves[k].enabled {
            "enabled"
        } else {
            "disabled"
        };
        push(
            &mut items,
            cat3(c.leaves[k].target.leaf.as_str(), " · ", state),
            Choice::Leaf(c.leaves[k].target.handle),
        );
        k += 1;
    }
    if let Some(after) = c.next {
        push(
            &mut items,
            "Next source page".to_owned(),
            Choice::Run(Command::Read { profile, after: Some(after) }, After::Browse),
        );
    }
    items
}

/// The entries of the first page.
pub open spec fn browse_items(v: LeafView) -> Seq<(Seq<char>, Choice)> {
    let first = match v.catalog {
        Some(c) => catalog_items(c, asked(v.profile)),
        None => seq![("Browse Host Profiles"@, read_choice(None, None))],
    };
    let reviewed = preview_items(first, v.previews@, v.previews@.len() as int);
    let recovered = if v.receipts@.len() > 0 {
        reviewed.push(("Recover original source receipts"@, Choice::Receipts(0)))
    } else {
        reviewed
    };
    let granted = if v.can_grant {
        recovered.push(
            (
                "Read explicit Profile grants"@,
                Choice::Run(Command::Grants, After::Grants(0)),
            ),
        )
    } else {
        recovered
    };
    granted.push(("Close Host Profiles"@, Choice::Close))
}

/// What the first page says.
pub open spec fn browse_text(v: LeafView) -> Seq<char> {
    match v.catalog {
        Some(c) => "Caller "@ + c.principal@ + " · "@ + (match v.profile {
            Some(p) => p.name@,
            None => "Select a writable Host Profile"@,
        }),
        None =>
            "Single leaf changes require explicit grants. Existing conversation generations remain pinned."@,
    }
}

/// The first page.
pub open spec fn browse_view(v: LeafView) -> PageView {
    PageView {
        title: "Host Profiles"@,
        explanation: browse_text(v),
        items: browse_items(v),
        details: false,
    }
}

/// The first page.
pub fn browse(v: &LeafView) -> (r: Page)
    ensures
        r@ == browse_view(*v),
{
    let profile: Option<u64> = match &v.profile {
        Some(p) => Some(p.handle),
        None => None,
    };
    let mut items: Vec<(String, Choice)> = match &v.catalog {
        Some(c) => list_catalog(c, profile),
        None => {
            let mut items = no_items();
            push(
                &mut items,
                "Browse Host Profiles".to_owned(),
                Choice::Run(Command::Read { profile: None, after: None }, After::Browse),
            );
            proof {
                assert(items_of(items@) =~= seq![
                    ("Browse Host Profiles"@, read_choice(None, None)),
                ]);
            }
            items
        },
    };
    let ghost first = items_of(items@);
    let mut i: usize = 0;
    while i < v.previews.len()
        invariant
            i <= v.previews@.len(),
            items_of(items@) == preview_items(first, v.previews@, i as int),
        decreases v.previews@.len() - i,
    {
        let head = cat4(
            "Review ",
            name_of(v.previews[i].operation),
            " · ",
            v.previews[i].target.profile.as_str(),
        );
        push(
            &mut items,
            cat3(head.as_str(), " / ", v.previews[i].target.leaf.as_str()),
            Choice::Review(v.previews[i].ticket),
        );
        i += 1;
    }
    if v.receipts.len() > 0 {
        push(&mut items, "Recover original source receipts".to_owned(), Choice::Receipts(0));
    }
    if v.can_grant {
        push(
            &mut items,
            "Read explicit Profile grants".to_owned(),
            Choice::Run(Command::Grants, After::Grants(0)),
        );
    }
    push(&mut items, "Close Host Profiles".to_owned(), Choice::Close);
    let explanation: String = match &v.catalog {
        Some(c) => {
            let name: &str = match &v.profile {
                Some(p) => p.name.as_str(),
                None => "Select a writable Host Profile",
            };
            cat4("Caller ", c.principal.as_str(), " · ", name)
        },
        None =>
            "Single leaf changes require explicit grants. Existing conversation generations remain pinned.".to_owned(),
    };
    Page { title: "Host Profiles".to_owned(), explanation, items, details: false }
}

/// The first part with a number.
pub open spec fn leaf_at(v: Seq<Leaf>, handle: u64, n: int) -> Option<Leaf>
    decreases n,
{
    if n <= 0 {
        None
    } else {
        match leaf_at(v, handle, n - 1) {
            Some(l) => Some(l),
            None => if v[n - 1].target.handle == handle {
                Some(v[n - 1])
            } else {
                None
            },
        }
    }
}

fn find_leaf<'a>(v: &'a Vec<Leaf>, handle: u64) -> (r: Option<&'a Leaf>)
    ensures
        match r {
            Some(l) => leaf_at(v@, handle, v@.len() as int) == Some(*l),
            None => leaf_at(v@, handle, v@.len() as int) is None,
        },
{
    let mut out: Option<&'a Leaf> = None;
    let mut i: usize = 0;
    while i < v.len()
        invariant
            i <= v@.len(),
            match out {
                Some(l) => leaf_at(v@, handle, i as int) == Some(*l),
                None => leaf_at(v@, handle, i as int) is None,
            },
        decreases v@.len() - i,
    {
        if out.is_none() && v[i].target.handle == handle {
            out = Some(&v[i]);
        }
        i += 1;
    }
    out
}

/// What a granted change leads to.
pub open spec fn change_item(k: ChangeKind, target: u64) -> (Seq<char>, Choice) {
    match k {
        ChangeKind::Enable => (
            "Preview enable"@,
            Choice::Run(Command::Enabled { target, enabled: true }, After::Review),
        ),
        ChangeKind::Disable => (
            "Preview disable"@,
            Choice::Run(Command::Enabled { target, enabled: false }, After::Review),
        ),
        ChangeKind::Configuration => (
            "Replace complete configuration"@,
            Choice::Configuration(target),
        ),
    }
}

/// The first `n` changes that are granted.
pub open spec fn change_items(v: Seq<ChangeKind>, target: u64, n: int) -> Seq<(Seq<char>, Choice)>
    decreases n,
{
    if n <= 0 {
        seq![]
    } else {
        change_items(v, target, n - 1).push(change_item(v[n - 1], target))
    }
}

/// The first `n` changes, as they are named.
pub open spec fn kinds_text(v: Seq<ChangeKind>, n: int) -> Seq<char>
    decreases n,
{
    if n <= 0 {
        "["@
    } else if n == 1 {
        kinds_text(v, 0) + kind_name(v[0])
    } else {
        kinds_text(v, n - 1) + ", "@ + kind_name(v[n - 1])
    }
}

fn list_kinds(v: &Vec<ChangeKind>) -> (r: String)
    ensures
        r@ == kinds_text(v@, v@.len() as int) + "]"@,
{
    let mut out = "[".to_owned();
    let mut i: usize = 0;
    while i < v.len()
        invariant
            i <= v@.len(),
            out@ == kinds_text(v@, i as int),
        decreases v@.len() - i,
    {
        if i == 0 {
            out = cat2(out.as_str(), name_of(v[0]));
        } else {
            out = cat3(out.as_str(), ", ", name_of(v[i]));
        }
        i += 1;
    }
    cat2(out.as_str(), "]")
}

/// The page of a part.
pub open spec fn leaf_view(l: Leaf, can_grant: bool) -> PageView {
    let changes = change_items(l.allowed@, l.target.handle, l.allowed@.len() as int);
    let granting = if can_grant {
        changes.push(
            (
                "Grant an exact change"@,
                Choice::Run(Command::Grants, After::Grant(l.target.handle)),
            ),
        )
    } else {
        changes
    };
    PageView {
        title: "Host leaf · "@ + l.target.leaf@,
        explanation: l.target.profile@ + " · "@ + l.plugin@ + "\nOwn enabled: "@ + truth(l.enabled)
            + " · ancestors: "@ + truth(l.effective_enabled) + " · Current grants: "@ + (kinds_text(
            l.allowed@,
            l.allowed@.len() as int,
        ) + "]"@),
        items: granting.push(("Back to source choices"@, Choice::Browse)),
        details: false,
    }
}

fn show_leaf(l: &Leaf, can_grant: bool) -> (r: Page)
    ensures
        r@ == leaf_view(*l, can_grant),
{
    let target: u64 = l.target.handle;
    let mut items = no_items();
    let mut i: usize = 0;
    while i < l.allowed.len()
        invariant
            i <= l.allowed@.len(),
            target == l.target.handle,
            items_of(items@) == change_items(l.allowed@, target, i as int),
        decreases l.allowed@.len() - i,
    {
        match l.allowed[i] {
            ChangeKind::Enable => push(
                &mut items,
                "Preview enable".to_owned(),
                Choice::Run(Command::Enabled { target, enabled: true }, After::Review),
            ),
            ChangeKind::Disable => push(
                &mut items,
                "Preview disable".to_owned(),
                Choice::Run(Command::Enabled { target, enabled: false }, After::Review),
            ),
            ChangeKind::Configuration => push(
                &mut items,
                "Replace complete configuration".to_owned(),
                Choice::Configuration(target),
            ),
        }
        i += 1;
    }
    if can_grant {
        push(
            &mut items,
            "Grant an exact change".to_owned(),
            Choice::Run(Command::Grants, After::Grant(target)),
        );
    }
    push(&mut items, "Back to source choices".to_owned(), Choice::Browse);
    let head = cat5(
        l.target.profile.as_str(),
        " · ",
        l.plugin.as_str(),
        "\nOwn enabled: ",
        truth_of(l.enabled),
    );
    Page {
        title: cat2("Host leaf · ", l.target.leaf.as_str()),
        explanation: cat5(
            head.as_str(),
            " · ancestors: ",
            truth_of(l.effective_enabled),
            " · Current grants: ",
            list_kinds(&l.allowed).as_str(),
        ),
        items,
        details: false,
    }
}

/// The page of the part with a number, or the first page where it is gone.
pub open spec fn leaf_page(v: LeafView, handle: u64) -> PageView {
    match v.catalog {
        Some(c) => match leaf_at(c.leaves@, handle, c.leaves@.len() as int) {
            Some(l) => leaf_view(l, v.can_grant),
            None => browse_view(v),
        },
        None => browse_view(v),
    }
}

/// The page of the part with a number, or the first page where it is gone.
pub fn leaf(v: &LeafView, handle: u64) -> (r: Page)
    ensures
        r@ == leaf_page(*v, handle),
{
    if let Some(c) = &v.catalog {
        if let Some(l) = find_leaf(&c.leaves, handle) {
            return show_leaf(l, v.can_grant);
        }
    }
    browse(v)
}

/// Whether it is not known what came of a proposal.
pub open spec fn uncertain(v: LeafView, ticket: u64) -> bool {
    v.receipt matches Some(r) && r.preview.ticket == ticket && (r.outcome is Pending || r.outcome
        is Unknown)
}

/// The page on which a change is reviewed before it is saved.
pub open spec fn review_view(v: LeafView, p: Preview) -> PageView {
    let first = if uncertain(v, p.ticket) {
        seq![
            (
                "Query original receipt"@,
                Choice::Run(Command::Receipt { ticket: p.ticket }, After::Receipt),
            ),
        ]
    } else {
        seq![
            (
                "Save reviewed change"@,
                Choice::Run(Command::Commit { ticket: p.ticket }, After::Receipt),
            ),
            (
                "Discard proposal"@,
                Choice::Run(Command::Discard { ticket: p.ticket }, After::Browse),
            ),
        ]
    };
    PageView {
        title: "Prepared Host Profile change"@,
        explanation: p.target.profile@ + " / "@ + p.target.leaf@ + " · "@ + p.plugin@ + "\n"@
            + kind_name(p.operation) + " · own enabled "@ + truth(p.previous_enabled) + " → "@
            + truth(p.enabled) + " · with ancestors "@ + truth(p.effective_enabled)
            + "\nReview: "@ + p.digest@ + "\nTicket: "@ + p.ticket_name@
            + "\nConfiguration values remain hidden. Saving and runtime application are separate."@,
        items: first.push(("Back to source choices"@, Choice::Browse)),
        details: true,
    }
}

/// The page on which a change is reviewed before it is saved.
pub fn review(v: &LeafView, p: &Preview) -> (r: Page)
    ensures
        r@ == review_view(*v, *p),
{
    let unknown: bool = match &v.receipt {
        Some(r) => r.preview.ticket == p.ticket && matches!(
            r.outcome,
            Outcome::Pending | Outcome::Unknown
        ),
        None => false,
    };
    let mut items = no_items();
    if unknown {
        push(
            &mut items,
            "Query original receipt".to_owned(),
            Choice::Run(Command::Receipt { ticket: p.ticket }, After::Receipt),
        );
    } else {
        push(
            &mut items,
            "Save reviewed change".to_owned(),
            Choice::Run(Command::Commit { ticket: p.ticket }, After::Receipt),
        );
        push(
            &mut items,
            "Discard proposal".to_owned(),
            Choice::Run(Command::Discard { ticket: p.ticket }, After::Browse),
        );
    }
    push(&mut items, "Back to source choices".to_owned(), Choice::Browse);
    proof {
        assert(unknown == uncertain(*v, p.ticket));
        assert(items_of(items@) =~= review_view(*v, *p).items);
    }
    let a = cat5(
        p.target.profile.as_str(),
        " / ",
        p.target.leaf.as_str(),
        " · ",
        p.plugin.as_str(),
    );
    let b = cat5(
        a.as_str(),
        "\n",
        name_of(p.operation),
        " · own enabled ",
        truth_of(p.previous_enabled),
    );
    let c = cat5(
        b.as_str(),
        " → ",
        truth_of(p.enabled),
        " · with ancestors ",
        truth_of(p.effective_enabled),
    );
    let d = cat5(
        c.as_str(),
        "\nReview: ",
        p.digest.as_str(),
        "\nTicket: ",
        p.ticket_name.as_str(),
    );
    Page {
        title: "Prepared Host Profile change".to_owned(),
        explanation: cat2(
            d.as_str(),
            "\nConfiguration values remain hidden. Saving and runtime application are separate.",
        ),
        items,
        details: true,
    }
}

/// What came of a change.
pub open spec fn outcome_text(o: Outcome) -> Seq<char> {
    match o {
        Outcome::Saved { directory_synced, application } => "Source: saved\nDirectory synced: "@
            + truth(directory_synced) + "\nCurrent runtime: "@ + application@,
        Outcome::Pending => "Source: pending"@,
        Outcome::Unknown => "Source: unknown; query the original receipt, never replay"@,
        Outcome::Failed(failure) => "Source: rejected before publication · "@ + failure@,
    }
}

fn show_outcome(o: &Outcome) -> (r: String)
    ensures
        r@ == outcome_text(*o),
{
    match o {
        Outcome::Saved { directory_synced, application } => cat4(
            "Source: saved\nDirectory synced: ",
            truth_of(*directory_synced),
            "\nCurrent runtime: ",
            application.as_str(),
        ),
        Outcome::Pending => "Source: pending".to_owned(),
        Outcome::Unknown => "Source: unknown; query the original receipt, never replay".to_owned(),
        Outcome::Failed(failure) => cat2(
            "Source: rejected before publication · ",
            failure.as_str(),
        ),
    }
}

/// The page of what a change left, or the first page where there is nothing.
pub open spec fn receipt_page(v: LeafView) -> PageView {
    match v.receipt {
        None => browse_view(v),
        Some(r) => PageView {
            title: "Profile source receipt"@,
            explanation: r.preview.target.profile@ + " / "@ + r.preview.target.leaf@ + "\n"@
                + outcome_text(r.outcome) + "\nTicket: "@ + r.preview.ticket_name@,
            items: seq![
                (
                    "Query original receipt"@,
                    Choice::Run(
                        Command::Receipt { ticket: r.preview.ticket },
                        After::Receipt,
                    ),
                ),
                ("Back to source choices"@, Choice::Browse),
            ],
            details: true,
        },
    }
}

/// The page of what a change left, or the first page where there is nothing.
pub fn receipt(v: &LeafView) -> (r: Page)
    ensures
        r@ == receipt_page(*v),
{
    match &v.receipt {
        None => browse(v),
        Some(r) => {
            let mut items = no_items();
            push(
                &mut items,
                "Query original receipt".to_owned(),
                Choice::Run(Command::Receipt { ticket: r.preview.ticket }, After::Receipt),
            );
            push(&mut items, "Back to source choices".to_owned(), Choice::Browse);
            proof {
                assert(items_of(items@) =~= receipt_page(*v).items);
            }
            let head = cat5(
                r.preview.target.profile.as_str(),
                " / ",
                r.preview.target.leaf.as_str(),
                "\n",
                show_outcome(&r.outcome).as_str(),
            );
            Page {
                title: "Profile source receipt".to_owned(),
                explanation: cat3(
                    head.as_str(),
                    "\nTicket: ",
                    r.preview.ticket_name.as_str(),
                ),
                items,
                details: true,
            }
        },
    }
}

/// The page on which a change to be granted is chosen.
pub open spec fn grant_kind_view(profile: Seq<char>, leaf: Seq<char>, target: u64) -> PageView {
    PageView {
        title: "Explicit leaf grant"@,
        explanation: profile + " / "@ + leaf + " · select one operation"@,
        items: seq![
            ("Grant Enable"@, Choice::GrantPrincipal(target, ChangeKind::Enable)),
            ("Grant Disable"@, Choice::GrantPrincipal(target, ChangeKind::Disable)),
            ("Grant Configuration"@, Choice::GrantPrincipal(target, ChangeKind::Configuration)),
            ("Back to source choices"@, Choice::Browse),
        ],
        details: false,
    }
}

/// The page on which a change to be granted is chosen.
pub fn grant_kind(profile: &str, leaf: &str, target: u64) -> (r: Page)
    ensures
        r@ == grant_kind_view(profile@, leaf@, target),
{
    let mut items = no_items();
    push(
        &mut items,
        "Grant Enable".to_owned(),
        Choice::GrantPrincipal(target, ChangeKind::Enable),
    );
    push(
        &mut items,
        "Grant Disable".to_owned(),
        Choice::GrantPrincipal(target, ChangeKind::Disable),
    );
    push(
        &mut items,
        "Grant Configuration".to_owned(),
        Choice::GrantPrincipal(target, ChangeKind::Configuration),
    );
    push(&mut items, "Back to source choices".to_owned(), Choice::Browse);
    proof {
        assert(items_of(items@) =~= grant_kind_view(profile@, leaf@, target).items);
    }
    Page {
        title: "Explicit leaf grant".to_owned(),
        explanation: cat4(profile, " / ", leaf, " · select one operation"),
        items,
        details: false,
    }
}

/// The page on which it is chosen who a change is granted to, or the first page where the grants
/// were not read.
pub open spec fn grant_principal_page(
    v: LeafView,
    profile: Seq<char>,
    leaf: Seq<char>,
    target: u64,
    operation: ChangeKind,
) -> PageView {
    match v.grants {
        None => browse_view(v),
        Some(g) => PageView {
            title: "Select grant principal"@,
            explanation: profile + " / "@ + leaf + " · "@ + kind_name(operation)
                + "\nGrant revision "@ + g.revision@
                + ". Authority is separate for each principal."@,
            items: seq![
                (
                    "Grant to Local"@,
                    Choice::Run(
                        Command::Grant { grantee: Grantee::Local, target, operation },
                        After::Leaf(target),
                    ),
                ),
                ("Grant to an Agent Session ID"@, Choice::GrantInput(target, operation, true)),
                (
                    "Grant to a registered Device ID"@,
                    Choice::GrantInput(target, operation, false),
                ),
                ("Back to operation choices"@, Choice::GrantKind(target)),
            ],
            details: false,
        },
    }
}

/// The page on which it is chosen who a change is granted to.
pub fn grant_principal(
    v: &LeafView,
    profile: &str,
    leaf: &str,
    target: u64,
    operation: ChangeKind,
) -> (r: Page)
    ensures
        r@ == grant_principal_page(*v, profile@, leaf@, target, operation),
{
    match &v.grants {
        None => browse(v),
        Some(g) => {
            let mut items = no_items();
            push(
                &mut items,
                "Grant to Local".to_owned(),
                Choice::Run(
                    Command::Grant { grantee: Grantee::Local, target, operation },
                    After::Leaf(target),
                ),
            );
            push(
                &mut items,
                "Grant to an Agent Session ID".to_owned(),
                Choice::GrantInput(target, operation, true),
            );
            push(
                &mut items,
                "Grant to a registered Device ID".to_owned(),
                Choice::GrantInput(target, operation, false),
            );
            push(
                &mut items,
                "Back to operation choices".to_owned(),
                Choice::GrantKind(target),
            );
            proof {
                assert(items_of(items@) =~= grant_principal_page(
                    *v,
                    profile@,
                    leaf@,
                    target,
                    operation,
                ).items);
            }
            let head = cat5(profile, " / ", leaf, " · ", name_of(operation));
            Page {
                title: "Select grant principal".to_owned(),
                explanation: cat4(
                    head.as_str(),
                    "\nGrant revision ",
                    g.revision.as_str(),
                    ". Authority is separate for each principal.",
                ),
                items,
                details: false,
            }
        },
    }
}

/// The grants from one index up to another.
pub open spec fn scope_items(v: Seq<Scope>, from: int, to: int) -> Seq<(Seq<char>, Choice)>
    decreases to - from,
{
    if to <= from {
        seq![]
    } else {
        scope_items(v, from, to - 1).push(
            (
                "Revoke "@ + v[to - 1].principal@ + " · "@ + v[to - 1].target.profile@ + " / "@
                    + v[to - 1].target.leaf@ + " · "@ + kind_name(v[to - 1].operation),
                Choice::Run(Command::Revoke { scope: v[to - 1].handle }, After::Grants(0)),
            ),
        )
    }
}

/// Where a page that begins at an offset ends.
pub open spec fn page_end(offset: usize, len: nat) -> int {
    if offset >= len {
        offset as int
    } else if offset + PAGE_ENTRIES < len {
        offset + PAGE_ENTRIES
    } else {
        len as int
    }
}

/// The page of the grants.
pub open spec fn grants_page(v: LeafView, offset: usize) -> PageView {
    let listed = match v.grants {
        None => seq![],
        Some(g) => {
            let scopes = scope_items(
                g.scopes@,
                offset as int,
                page_end(offset, g.scopes@.len()),
            );
            if offset + PAGE_ENTRIES < g.scopes@.len() {
                scopes.push(
                    ("Next grants page"@, Choice::Grants((offset + PAGE_ENTRIES) as usize)),
                )
            } else {
                scopes
            }
        },
    };
    PageView {
        title: "Explicit Profile grants"@,
        explanation: "Select an exact grant to revoke it and drain previously admitted work."@,
        items: listed.push(
            ("Refresh grants"@, Choice::Run(Command::Grants, After::Grants(0))),
        ).push(("Back to source choices"@, Choice::Browse)),
        details: false,
    }
}

fn end_of_page(offset: usize, len: usize) -> (r: usize)
    ensures
        r == page_end(offset, len as nat),
{
    if offset >= len {
        offset
    } else if len - offset > PAGE_ENTRIES {
        offset + PAGE_ENTRIES
    } else {
        len
    }
}

/// The page of the grants.
pub fn grants(v: &LeafView, offset: usize) -> (r: Page)
    ensures
        r@ == grants_page(*v, offset),
{
    let mut items = no_items();
    if let Some(g) = &v.grants {
        let to: usize = end_of_page(offset, g.scopes.len());
        let mut i: usize = offset;
        while i < to
            invariant
                offset <= i <= to,
                to <= g.scopes@.len() || to == offset,
                items_of(items@) == scope_items(g.scopes@, offset as int, i as int),
            decreases to - i,
        {
            let head = cat5(
                "Revoke ",
                g.scopes[i].principal.as_str(),
                " · ",
                g.scopes[i].target.profile.as_str(),
                " / ",
            );
            push(
                &mut items,
                cat4(
                    head.as_str(),
                    g.scopes[i].target.leaf.as_str(),
                    " · ",
                    name_of(g.scopes[i].operation),
                ),
                Choice::Run(Command::Revoke { scope: g.scopes[i].handle }, After::Grants(0)),
            );
            i += 1;
        }
        if offset < g.scopes.len() && g.scopes.len() - offset > PAGE_ENTRIES {
            push(
                &mut items,
                "Next grants page".to_owned(),
                Choice::Grants(offset + PAGE_ENTRIES),
            );
        }
    }
    push(
        &mut items,
        "Refresh grants".to_owned(),
        Choice::Run(Command::Grants, After::Grants(0)),
    );
    push(&mut items, "Back to source choices".to_owned(), Choice::Browse);
    Page {
        title: "Explicit Profile grants".to_owned(),
        explanation:
            "Select an exact grant to revoke it and drain previously admitted work.".to_owned(),
        items,
        details: false,
    }
}

/// The receipts from one index up to another.
pub open spec fn receipt_items(v: Seq<Named>, from: int, to: int) -> Seq<(Seq<char>, Choice)>
    decreases to - from,
{
    if to <= from {
        seq![]
    } else {
        receipt_items(v, from, to - 1).push(
            (
                "Read receipt "@ + v[to - 1].name@,
                Choice::Run(Command::Receipt { ticket: v[to - 1].handle }, After::Receipt),
            ),
        )
    }
}

/// The page of the receipts.
pub open spec fn receipts_page(v: LeafView, offset: usize) -> PageView {
    let listed = receipt_items(
        v.receipts@,
        offset as int,
        page_end(offset, v.receipts@.len()),
    );
    let paged = if offset + PAGE_ENTRIES < v.receipts@.len() {
        listed.push(("Next receipts page"@, Choice::Receipts((offset + PAGE_ENTRIES) as usize)))
    } else {
        listed
    };
    PageView {
        title: "Original Profile receipts"@,
        explanation: "Reading an original ticket never submits its write again."@,
        items: paged.push(("Back to source choices"@, Choice::Browse)),
        details: false,
    }
}

/// The page of the receipts.
pub fn receipts(v: &LeafView, offset: usize) -> (r: Page)
    ensures
        r@ == receipts_page(*v, offset),
{
    let mut items = no_items();
    let to: usize = end_of_page(offset, v.receipts.len());
    let mut i: usize = offset;
    while i < to
        invariant
            offset <= i <= to,
            to <= v.receipts@.len() || to == offset,
            items_of(items@) == receipt_items(v.receipts@, offset as int, i as int),
        decreases to - i,
    {
        push(
            &mut items,
            cat2("Read receipt ", v.receipts[i].name.as_str()),
            Choice::Run(Command::Receipt { ticket: v.receipts[i].handle }, After::Receipt),
        );
        i += 1;
    }
    if offset < v.receipts.len() && v.receipts.len() - offset > PAGE_ENTRIES {
        push(
            &mut items,
            "Next receipts page".to_owned(),
            Choice::Receipts(offset + PAGE_ENTRIES),
        );
    }
    push(&mut items, "Back to source choices".to_owned(), Choice::Browse);
    Page {
        title: "Original Profile receipts".to_owned(),
        explanation: "Reading an original ticket never submits its write again.".to_owned(),
        items,
        details: false,
    }
}

/// A change whose outcome is not known cannot be saved again: only its receipt can be asked for.
pub proof fn law_never_replayed(v: LeafView, p: Preview, i: int)
    requires
        uncertain(v, p.ticket),
        0 <= i < review_view(v, p).items.len(),
    ensures
        !(review_view(v, p).items[i].1 matches Choice::Run(Command::Commit { .. }, _)),
{
}

/// From the first page and from the page of a part, only changes that are granted can be prepared.
pub proof fn law_only_granted(l: Leaf, can_grant: bool, i: int)
    requires
        0 <= i < leaf_view(l, can_grant).items.len(),
    ensures
        leaf_view(l, can_grant).items[i].1 matches Choice::Run(
            Command::Enabled { target, enabled },
            _,
        ) ==> target == l.target.handle && l.allowed@.contains(
            if enabled {
                ChangeKind::Enable
            } else {
                ChangeKind::Disable
            },
        ),
        leaf_view(l, can_grant).items[i].1 matches Choice::Configuration(target) ==> target
            == l.target.handle && l.allowed@.contains(ChangeKind::Configuration),
{
    lemma_changes(l.allowed@, l.target.handle, l.allowed@.len() as int);
    let n = l.allowed@.len() as int;
    let changes = change_items(l.allowed@, l.target.handle, n);
    if i < n {
        assert(leaf_view(l, can_grant).items[i] == changes[i]);
        assert(l.allowed@.contains(l.allowed@[i]));
    }
}

proof fn lemma_changes(v: Seq<ChangeKind>, target: u64, n: int)
    requires
        0 <= n <= v.len(),
    ensures
        change_items(v, target, n).len() == n,
        forall|i: int| 0 <= i < n ==> #[trigger] change_items(v, target, n)[i] == change_item(
            v[i],
            target,
        ),
    decreases n,
{
    if n > 0 {
        lemma_changes(v, target, n - 1);
    }
}

/// A part that is enabled can be proposed to be disabled and the other way round, as it is granted:
/// each change says what it does.
pub proof fn law_change_items(target: u64)
    ensures
        change_item(ChangeKind::Enable, target) == (
            "Preview enable"@,
            Choice::Run(Command::Enabled { target, enabled: true }, After::Review),
        ),
        change_item(ChangeKind::Disable, target) == (
            "Preview disable"@,
            Choice::Run(Command::Enabled { target, enabled: false }, After::Review),
        ),
        change_item(ChangeKind::Configuration, target) == (
            "Replace complete configuration"@,
            Choice::Configuration(target),
        ),
        kind_name(ChangeKind::Enable) == "Enable"@,
        kind_name(ChangeKind::Disable) == "Disable"@,
        kind_name(ChangeKind::Configuration) == "Configuration"@,
        truth(true) == "true"@,
        truth(false) == "false"@,
{
}

/// A proposal is saved or discarded by its own ticket, and where it is not known what came of it,
/// only asked about.
pub proof fn law_review_choices(v: LeafView, p: Preview)
    ensures
        ({
            let items = review_view(v, p).items;
            let open = v.receipt is Some && v.receipt->0.preview.ticket == p.ticket && (
            v.receipt->0.outcome is Pending || v.receipt->0.outcome is Unknown);
            &&& open ==> items.len() == 2 && items[0] == (
                "Query original receipt"@,
                Choice::Run(Command::Receipt { ticket: p.ticket }, After::Receipt),
            )
            &&& !open ==> items.len() == 3 && items[0] == (
                "Save reviewed change"@,
                Choice::Run(Command::Commit { ticket: p.ticket }, After::Receipt),
            ) && items[1] == (
                "Discard proposal"@,
                Choice::Run(Command::Discard { ticket: p.ticket }, After::Browse),
            )
            &&& items.last() == ("Back to source choices"@, Choice::Browse)
        }),
{
}

/// A grant is for the change that its entry names, and goes to whom its entry names.
pub proof fn law_grants(
    v: LeafView,
    profile: Seq<char>,
    leaf: Seq<char>,
    target: u64,
    operation: ChangeKind,
)
    requires
        v.grants is Some,
    ensures
        ({
            let kinds = grant_kind_view(profile, leaf, target).items;
            let whom = grant_principal_page(v, profile, leaf, target, operation).items;
            &&& kinds[0] == ("Grant Enable"@, Choice::GrantPrincipal(target, ChangeKind::Enable))
            &&& kinds[1] == ("Grant Disable"@, Choice::GrantPrincipal(target, ChangeKind::Disable))
            &&& kinds[2] == (
                "Grant Configuration"@,
                Choice::GrantPrincipal(target, ChangeKind::Configuration),
            )
            &&& whom[0] == (
                "Grant to Local"@,
                Choice::Run(
                    Command::Grant { grantee: Grantee::Local, target, operation },
                    After::Leaf(target),
                ),
            )
            &&& whom[1] == (
                "Grant to an Agent Session ID"@,
                Choice::GrantInput(target, operation, true),
            )
            &&& whom[2] == (
                "Grant to a registered Device ID"@,
                Choice::GrantInput(target, operation, false),
            )
            &&& whom[3] == ("Back to operation choices"@, Choice::GrantKind(target))
        }),
{
}

/// A grant is revoked by its own entry, and a page lists 64 of them.
pub proof fn law_revocations(v: LeafView, g: Seq<Scope>, offset: usize, i: int)
    requires
        v.grants is Some,
        v.grants->0.scopes@ == g,
        offset < g.len(),
        offset + 64 <= usize::MAX,
        0 <= i < page_end(offset, g.len()) - offset,
    ensures
        ({
            let items = grants_page(v, offset).items;
            &&& items[i].1 == Choice::Run(
                Command::Revoke { scope: g[offset + i].handle },
                After::Grants(0),
            )
            &&& page_end(offset, g.len()) - offset <= 64
            &&& offset + 64 < g.len() ==> page_end(offset, g.len()) == offset + 64
                && items[64] == ("Next grants page"@, Choice::Grants((offset + 64) as usize))
            &&& offset + 64 >= g.len() ==> page_end(offset, g.len()) == g.len()
        }),
{
    lemma_scope_items(g, offset as int, page_end(offset, g.len()), i);
}

proof fn lemma_scope_items(v: Seq<Scope>, from: int, to: int, i: int)
    requires
        0 <= from <= to <= v.len(),
    ensures
        scope_items(v, from, to).len() == to - from,
        0 <= i < to - from ==> scope_items(v, from, to)[i].1 == Choice::Run(
            Command::Revoke { scope: v[from + i].handle },
            After::Grants(0),
        ),
    decreases to - from,
{
    if from < to {
        lemma_scope_items(v, from, to - 1, i);
    }
}

/// A receipt is read by its own entry and never written again.
pub proof fn law_receipt_items(v: Seq<Named>, from: int, to: int, i: int)
    requires
        0 <= from <= to <= v.len(),
    ensures
        receipt_items(v, from, to).len() == to - from,
        0 <= i < to - from ==> receipt_items(v, from, to)[i] == (
            "Read receipt "@ + v[from + i].name@,
            Choice::Run(Command::Receipt { ticket: v[from + i].handle }, After::Receipt),
        ),
    decreases to - from,
{
    if from < to {
        law_receipt_items(v, from, to - 1, i);
    }
}

/// What came of a change is told apart: saved, pending, unknown or rejected.
pub proof fn law_outcomes(failure: String, application: String, synced: bool)
    ensures
        outcome_text(Outcome::Pending) == "Source: pending"@,
        outcome_text(Outcome::Unknown)
            == "Source: unknown; query the original receipt, never replay"@,
        outcome_text(Outcome::Failed(failure)) == "Source: rejected before publication · "@
            + failure@,
        outcome_text(Outcome::Saved { directory_synced: synced, application })
            == "Source: saved\nDirectory synced: "@ + (if synced {
            "true"@
        } else {
            "false"@
        }) + "\nCurrent runtime: "@ + application@,
{
}

/// The part that is shown is the first with the number that was chosen.
pub proof fn law_leaf_at(v: Seq<Leaf>, handle: u64, n: int)
    requires
        0 <= n <= v.len(),
    ensures
        match leaf_at(v, handle, n) {
            Some(l) => l.target.handle == handle && v.contains(l),
            None => forall|i: int| 0 <= i < n ==> (#[trigger] v[i]).target.handle != handle,
        },
    decreases n,
{
    if n > 0 {
        law_leaf_at(v, handle, n - 1);
        assert(v.contains(v[n - 1]));
    }
}

/// The profiles, the parts and the proposals of a list, each with its own.
pub proof fn law_browse_lists(
    profiles: Seq<Named>,
    leaves: Seq<Leaf>,
    previews: Seq<Preview>,
    before: Seq<(Seq<char>, Choice)>,
    n: int,
)
    requires
        0 <= n,
    ensures
        n < profiles.len() ==> profile_items(profiles, n + 1) == profile_items(profiles, n).push(
            (
                "Open Profile "@ + profiles[n].name@,
                Choice::Run(
                    Command::Read { profile: Some(profiles[n].handle), after: None },
                    After::Browse,
                ),
            ),
        ),
        n < leaves.len() ==> leaf_items(before, leaves, n + 1) == leaf_items(
            before,
            leaves,
            n,
        ).push(
            (
                leaves[n].target.leaf@ + " · "@ + (if leaves[n].enabled {
                    "enabled"@
                } else {
                    "disabled"@
                }),
                Choice::Leaf(leaves[n].target.handle),
            ),
        ),
        n < previews.len() ==> preview_items(before, previews, n + 1).last().1 == Choice::Review(
            previews[n].ticket,
        ),
        leaf_items(before, leaves, 0) == before,
        preview_items(before, previews, 0) == before,
{
}

/// The first page offers receipts where there are any, grants where they can be given, and always
/// the way out.
pub proof fn law_browse(v: LeafView)
    ensures
        ({
            let items = browse_items(v);
            let grants = (
                "Read explicit Profile grants"@,
                Choice::Run(Command::Grants, After::Grants(0)),
            );
            let receipts = ("Recover original source receipts"@, Choice::Receipts(0));
            &&& items.last() == ("Close Host Profiles"@, Choice::Close)
            &&& v.can_grant ==> items.len() > 1 && items[items.len() - 2] == grants
            &&& !v.can_grant && v.receipts@.len() > 0 ==> items.len() > 1 && items[items.len() - 2]
                == receipts
            &&& v.can_grant && v.receipts@.len() > 0 ==> items.len() > 2 && items[items.len() - 3]
                == receipts
        }),
{
}

} // verus!
