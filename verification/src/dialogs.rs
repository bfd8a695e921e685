//! What the account's dialogs and its menu say.
use vstd::prelude::*;

use crate::account::{AccountMenuAction, AuthState, SyncFlow, SyncState, WorkspaceScope};

verus! {

/// What a button does.
#[derive(Debug, Clone, Copy, PartialEq, Eq, Structural)]
pub enum CardAction {
    CancelAuth,
    SignIn,
    Postpone,
    SwitchFresh,
    SwitchWithWork,
    Dismiss,
    RetryImport,
    Quit,
    ConfirmSignOut,
    RetryLocal,
    RetryEngine,
}

/// A button: what it says and what it does.
pub struct CardButton {
    pub label: String,
    pub action: CardAction,
}

/// A dialog: its title and text, what stands under the text, how far the
/// import is, and its buttons.
pub struct SyncCard {
    pub title: String,
    pub body: String,
    /// The session being copied.
    pub current: Option<String>,
    /// What failed.
    pub error: Option<String>,
    /// Copied and in all.
    pub progress: Option<(usize, usize)>,
    pub buttons: Vec<CardButton>,
}

/// What a [`SyncCard`] holds.
#[verifier::ext_equal]
pub struct CardView {
    pub title: Seq<char>,
    pub body: Seq<char>,
    pub current: Option<Seq<char>>,
    pub error: Option<Seq<char>>,
    pub progress: Option<(usize, usize)>,
    pub buttons: Seq<(Seq<char>, CardAction)>,
}

/// What a button holds.
pub open spec fn button_view(b: CardButton) -> (Seq<char>, CardAction) {
    (b.label@, b.action)
}

/// What a sequence of buttons holds.
pub open spec fn button_views(s: Seq<CardButton>) -> Seq<(Seq<char>, CardAction)> {
    Seq::new(s.len(), |i: int| button_view(s[i]))
}

impl View for SyncCard {
    type V = CardView;

    open spec fn view(&self) -> CardView {
        CardView {
            title: self.title@,
            body: self.body@,
            current: crate::markdown::opt_text(self.current),
            error: crate::markdown::opt_text(self.error),
            progress: self.progress,
            buttons: button_views(self.buttons@),
        }
    }
}

/// What lies over the shell.
pub enum SyncOverlay {
    Nothing,
    /// The choice of a workspace.
    OrgGate,
    Card(SyncCard),
}

/// What a [`SyncOverlay`] holds.
#[verifier::ext_equal]
pub enum OverlayView {
    Nothing,
    OrgGate,
    Card(CardView),
}

impl View for SyncOverlay {
    type V = OverlayView;

    open spec fn view(&self) -> OverlayView {
        match self {
            SyncOverlay::Nothing => OverlayView::Nothing,
            SyncOverlay::OrgGate => OverlayView::OrgGate,
            SyncOverlay::Card(c) => OverlayView::Card(c@),
        }
    }
}

/// A dialog of a title, a text and buttons.
pub open spec fn plain_card(
    title: Seq<char>,
    body: Seq<char>,
    buttons: Seq<(Seq<char>, CardAction)>,
) -> CardView {
    CardView { title, body, current: None, error: None, progress: None, buttons }
}

/// The address of who is signed in with a workspace.
pub open spec fn signed_in_email(auth: Option<AuthState>) -> Option<Seq<char>> {
    match auth {
        Some(AuthState::SignedIn { email }) => Some(email@),
        _ => None,
    }
}

/// What the offer to switch says.
pub open spec fn offer_text(email: Option<Seq<char>>, phrase: Option<Seq<char>>) -> Seq<char> {
    let who = match email {
        Some(e) => "You're signed in as "@ + e + ". "@,
        None => Seq::empty(),
    };
    match phrase {
        Some(p) => who + "Bring "@ + p
            + " from this device into your synced workspace, or start it fresh."@,
        None => who + "Zeron can switch to your synced workspace now."@,
    }
}

/// The buttons of the offer to switch: fresh or with work only where there is
/// work.
pub open spec fn offer_buttons(work: bool) -> Seq<(Seq<char>, CardAction)> {
    if work {
        seq![
            ("Later"@, CardAction::Postpone),
            ("Start fresh"@, CardAction::SwitchFresh),
            ("Bring my work"@, CardAction::SwitchWithWork),
        ]
    } else {
        seq![("Later"@, CardAction::Postpone), ("Switch now"@, CardAction::SwitchFresh)]
    }
}

/// What the running import says.
pub open spec fn import_text(done: usize, total: usize) -> Seq<char> {
    if total == 0 {
        "Looking for local sessions…"@
    } else {
        "Importing session "@ + crate::text::decimal(
            if done < total {
                done as nat + 1
            } else {
                total as nat
            },
        ) + " of "@ + crate::text::decimal(total as nat)
    }
}

/// What the finished import says.
pub open spec fn done_text(imported: usize, skipped: usize) -> Seq<char> {
    if imported == 0 && skipped == 0 {
        "Your synced workspace is ready."@
    } else if skipped == 0 {
        crate::account::counted(imported, "session"@) + " moved into your synced workspace."@
    } else {
        crate::account::counted(imported, "session"@) + " imported, "@ + crate::text::decimal(
            skipped as nat,
        ) + " already present."@
    }
}

/// What the button that quits says.
pub open spec fn quit_label(changing: bool, remote: bool) -> Seq<char> {
    if changing {
        "Stopping engine…"@
    } else if remote {
        "Stop daemon and quit"@
    } else {
        "Quit Zeron"@
    }
}

/// The dialog of the flow, where it has one.
pub open spec fn card_of(
    s: crate::account::SyncView,
    remote: bool,
    email: Option<Seq<char>>,
    phrase: Option<Seq<char>>,
) -> Option<CardView> {
    match s.flow {
        SyncFlow::Enabling => Some(
            plain_card(
                "Enable sync"@,
                "Finish signing in in your browser. Zeron will keep using this local workspace until you quit and reopen."@,
                seq![
                    ("Cancel"@, CardAction::CancelAuth),
                    ("Open browser again"@, CardAction::SignIn),
                ],
            ),
        ),
        SyncFlow::Canceling => Some(
            plain_card(
                "Canceling sync setup…"@,
                "Removing the partial sign-in before returning to your local workspace."@,
                seq![],
            ),
        ),
        SyncFlow::SwitchOffer { notice_open: true } => Some(
            plain_card(
                "Sync is ready"@,
                offer_text(email, phrase),
                offer_buttons(phrase is Some),
            ),
        ),
        SyncFlow::Switching { import } => Some(
            plain_card(
                "Switching to your synced workspace…"@,
                if import {
                    "Handing the engine over to your account. Your local sessions come along next."@
                } else {
                    "Handing the engine over to your account."@
                },
                seq![],
            ),
        ),
        SyncFlow::Importing { done, total } => Some(
            CardView {
                current: s.current,
                progress: Some((done, total)),
                ..plain_card("Bringing your work over"@, import_text(done, total), seq![])
            },
        ),
        SyncFlow::ImportDone { imported, skipped } => Some(
            plain_card(
                "You're all set"@,
                done_text(imported, skipped),
                seq![("Continue"@, CardAction::Dismiss)],
            ),
        ),
        SyncFlow::ImportFailed { notice_open: true } => Some(
            CardView {
                error: s.error,
                ..plain_card(
                    "Import didn't finish"@,
                    "Anything already imported is kept; retrying only copies what's missing."@,
                    seq![
                        ("Later"@, CardAction::Postpone),
                        ("Retry import"@, CardAction::RetryImport),
                    ],
                )
            },
        ),
        SyncFlow::RestartPending { notice_open: true } => Some(
            CardView {
                error: s.error,
                ..plain_card(
                    "Sync needs a restart"@,
                    if remote {
                        "Zeron is using a background daemon. Stop it and quit Zeron, then reopen to start the synced workspace. Existing local sessions stay on this device and will not be uploaded."@
                    } else {
                        "Quit and reopen Zeron to start the synced workspace. Existing local sessions stay on this device and will not be uploaded."@
                    },
                    seq![
                        ("Later"@, CardAction::Postpone),
                        (quit_label(s.changing, remote), CardAction::Quit),
                    ],
                )
            },
        ),
        SyncFlow::SignOutConfirm => Some(
            plain_card(
                "Sign out?"@,
                "Zeron will remove your credentials, close the synced workspace, and continue in local mode."@,
                seq![
                    ("Cancel"@, CardAction::Dismiss),
                    ("Sign out"@, CardAction::ConfirmSignOut),
                ],
            ),
        ),
        SyncFlow::SigningOut => Some(
            plain_card(
                "Signing out…"@,
                "Removing account credentials and closing the synced workspace."@,
                seq![],
            ),
        ),
        _ => None,
    }
}

/// What lies over the shell.
pub open spec fn overlay_of(
    s: crate::account::SyncView,
    auth: Option<AuthState>,
    remote: bool,
    chats: usize,
    spaces: usize,
) -> OverlayView {
    if s.flow is Enabling && (auth matches Some(a) && a is NeedsOrganization) {
        OverlayView::OrgGate
    } else {
        match card_of(
            s,
            remote,
            signed_in_email(auth),
            crate::account::work_phrase(chats, spaces),
        ) {
            Some(c) => OverlayView::Card(c),
            None => OverlayView::Nothing,
        }
    }
}

fn button(label: &str, action: CardAction) -> (r: CardButton)
    ensures
        button_view(r) == (label@, action),
{
    CardButton { label: label.to_owned(), action }
}

fn no_buttons() -> (r: Vec<CardButton>)
    ensures
        button_views(r@) == Seq::<(Seq<char>, CardAction)>::empty(),
{
    let r: Vec<CardButton> = Vec::new();
    assert(button_views(r@) =~= Seq::empty());
    r
}

fn one_button(a: CardButton) -> (r: Vec<CardButton>)
    ensures
        button_views(r@) == seq![button_view(a)],
{
    let ghost va = button_view(a);
    let mut r: Vec<CardButton> = Vec::new();
    r.push(a);
    assert(button_views(r@) =~= seq![va]);
    r
}

fn two_buttons(a: CardButton, b: CardButton) -> (r: Vec<CardButton>)
    ensures
        button_views(r@) == seq![button_view(a), button_view(b)],
{
    let ghost va = button_view(a);
    let ghost vb = button_view(b);
    let mut r: Vec<CardButton> = Vec::new();
    r.push(a);
    r.push(b);
    assert(button_views(r@) =~= seq![va, vb]);
    r
}

fn card(title: &str, body: &str, buttons: Vec<CardButton>) -> (r: SyncCard)
    ensures
        r@ == plain_card(title@, body@, button_views(buttons@)),
{
    SyncCard {
        title: title.to_owned(),
        body: body.to_owned(),
        current: None,
        error: None,
        progress: None,
        buttons,
    }
}

fn say_offer(email: &Option<String>, phrase: &Option<String>) -> (r: String)
    ensures
        r@ == offer_text(crate::markdown::opt_text(*email), crate::markdown::opt_text(*phrase)),
{
    let mut s = String::new();
    if let Some(e) = email {
        crate::text::push_text(&mut s, "You're signed in as ");
        crate::text::push_text(&mut s, e.as_str());
        crate::text::push_text(&mut s, ". ");
    }
    match phrase {
        Some(p) => {
            crate::text::push_text(&mut s, "Bring ");
            crate::text::push_text(&mut s, p.as_str());
            crate::text::push_text(
                &mut s,
                " from this device into your synced workspace, or start it fresh.",
            );
        },
        None => {
            crate::text::push_text(&mut s, "Zeron can switch to your synced workspace now.");
        },
    }
    assert(s@ =~= offer_text(crate::markdown::opt_text(*email), crate::markdown::opt_text(*phrase)));
    s
}

fn say_import(done: usize, total: usize) -> (r: String)
    ensures
        r@ == import_text(done, total),
{
    if total == 0 {
        return "Looking for local sessions…".to_owned();
    }
    let at: usize = if done < total {
        done + 1
    } else {
        total
    };
    let mut s = "Importing session ".to_owned();
    crate::text::push_decimal(&mut s, at as u64);
    crate::text::push_text(&mut s, " of ");
    crate::text::push_decimal(&mut s, total as u64);
    s
}

fn say_done(imported: usize, skipped: usize) -> (r: String)
    ensures
        r@ == done_text(imported, skipped),
{
    if imported == 0 && skipped == 0 {
        return "Your synced workspace is ready.".to_owned();
    }
    let mut s = String::new();
    crate::text::push_decimal(&mut s, imported as u64);
    crate::text::push_text(&mut s, " ");
    crate::text::push_text(&mut s, "session");
    crate::text::push_text(&mut s, crate::account::plural_ending(imported));
    if skipped == 0 {
        crate::text::push_text(&mut s, " moved into your synced workspace.");
    } else {
        crate::text::push_text(&mut s, " imported, ");
        crate::text::push_decimal(&mut s, skipped as u64);
        crate::text::push_text(&mut s, " already present.");
    }
    assert(s@ =~= done_text(imported, skipped));
    s
}

fn say_quit(changing: bool, remote: bool) -> (r: &'static str)
    ensures
        r@ == quit_label(changing, remote),
{
    if changing {
        "Stopping engine…"
    } else if remote {
        "Stop daemon and quit"
    } else {
        "Quit Zeron"
    }
}

fn offer_card(email: &Option<String>, phrase: &Option<String>) -> (r: SyncCard)
    ensures
        r@ == plain_card(
            "Sync is ready"@,
            offer_text(crate::markdown::opt_text(*email), crate::markdown::opt_text(*phrase)),
            offer_buttons(phrase is Some),
        ),
{
    let body = say_offer(email, phrase);
    let later = button("Later", CardAction::Postpone);
    let buttons = if phrase.is_some() {
        let mut b = two_buttons(later, button("Start fresh", CardAction::SwitchFresh));
        let bring = button("Bring my work", CardAction::SwitchWithWork);
        let ghost all = button_views(b@).push(button_view(bring));
        b.push(bring);
        assert(button_views(b@) =~= all);
        assert(all =~= offer_buttons(true));
        b
    } else {
        two_buttons(later, button("Switch now", CardAction::SwitchFresh))
    };
    card("Sync is ready", body.as_str(), buttons)
}

fn restart_card(error: &Option<String>, changing: bool, remote: bool) -> (r: SyncCard)
    ensures
        forall|s: crate::account::SyncView, email: Option<Seq<char>>, phrase: Option<Seq<char>>|
            s.flow == (SyncFlow::RestartPending { notice_open: true }) && s.error
                == crate::markdown::opt_text(*error) && s.changing == changing
                ==> #[trigger] card_of(s, remote, email, phrase) == Some(r@),
{
    let mut c = card(
        "Sync needs a restart",
        if remote {
            "Zeron is using a background daemon. Stop it and quit Zeron, then reopen to start the synced workspace. Existing local sessions stay on this device and will not be uploaded."
        } else {
            "Quit and reopen Zeron to start the synced workspace. Existing local sessions stay on this device and will not be uploaded."
        },
        two_buttons(
            button("Later", CardAction::Postpone),
            button(say_quit(changing, remote), CardAction::Quit),
        ),
    );
    c.error = crate::markdown::copy_opt(error);
    c
}

fn email_of(auth: Option<&AuthState>) -> (r: Option<String>)
    ensures
        crate::markdown::opt_text(r) == signed_in_email(crate::account::opt_auth(auth)),
{
    match auth {
        Some(AuthState::SignedIn { email }) => Some(email.clone()),
        _ => None,
    }
}

/// What lies over the shell: the choice of a workspace while signing in needs
/// one, else the dialog of the flow.
pub fn sync_overlay(
    s: &SyncState,
    auth: Option<&AuthState>,
    remote: bool,
    chats: usize,
    spaces: usize,
) -> (r: SyncOverlay)
    ensures
        r@ == overlay_of(s@, crate::account::opt_auth(auth), remote, chats, spaces),
{
    if let SyncFlow::Enabling = s.flow {
        if let Some(AuthState::NeedsOrganization { .. }) = auth {
            return SyncOverlay::OrgGate;
        }
    }
    let c = match s.flow {
        SyncFlow::Enabling => card(
            "Enable sync",
            "Finish signing in in your browser. Zeron will keep using this local workspace until you quit and reopen.",
            two_buttons(
                button("Cancel", CardAction::CancelAuth),
                button("Open browser again", CardAction::SignIn),
            ),
        ),
        SyncFlow::Canceling => card(
            "Canceling sync setup…",
            "Removing the partial sign-in before returning to your local workspace.",
            no_buttons(),
        ),
        SyncFlow::SwitchOffer { notice_open: true } => offer_card(
            &email_of(auth),
            &crate::account::local_work_phrase(chats, spaces),
        ),
        SyncFlow::Switching { import } => card(
            "Switching to your synced workspace…",
            if import {
                "Handing the engine over to your account. Your local sessions come along next."
            } else {
                "Handing the engine over to your account."
            },
            no_buttons(),
        ),
        SyncFlow::Importing { done, total } => {
            let body = say_import(done, total);
            let mut c = card("Bringing your work over", body.as_str(), no_buttons());
            c.current = crate::markdown::copy_opt(&s.current);
            c.progress = Some((done, total));
            c
        },
        SyncFlow::ImportDone { imported, skipped } => {
            let body = say_done(imported, skipped);
            card(
                "You're all set",
                body.as_str(),
                one_button(button("Continue", CardAction::Dismiss)),
            )
        },
        SyncFlow::ImportFailed { notice_open: true } => {
            let mut c = card(
                "Import didn't finish",
                "Anything already imported is kept; retrying only copies what's missing.",
                two_buttons(
                    button("Later", CardAction::Postpone),
                    button("Retry import", CardAction::RetryImport),
                ),
            );
            c.error = crate::markdown::copy_opt(&s.error);
            c
        },
        SyncFlow::RestartPending { notice_open: true } => restart_card(
            &s.error,
            s.changing,
            remote,
        ),
        SyncFlow::SignOutConfirm => card(
            "Sign out?",
            "Zeron will remove your credentials, close the synced workspace, and continue in local mode.",
            two_buttons(
                button("Cancel", CardAction::Dismiss),
                button("Sign out", CardAction::ConfirmSignOut),
            ),
        ),
        SyncFlow::SigningOut => card(
            "Signing out…",
            "Removing account credentials and closing the synced workspace.",
            no_buttons(),
        ),
        _ => {
            return SyncOverlay::Nothing;
        },
    };
    assert(Some(c@) =~= card_of(
        s@,
        remote,
        signed_in_email(crate::account::opt_auth(auth)),
        crate::account::work_phrase(chats, spaces),
    ));
    SyncOverlay::Card(c)
}

/// The dialog of a synced workspace that was signed out of and did not close.
pub open spec fn signed_out_view(s: crate::account::SyncView) -> CardView {
    CardView {
        error: s.error,
        ..plain_card(
            "Signed out"@,
            "Zeron removed your credentials but could not finish closing the previous synced workspace. Retry before continuing in local mode."@,
            seq![
                (
                    if s.changing {
                        "Stopping engine…"@
                    } else {
                        "Retry local mode"@
                    },
                    CardAction::RetryLocal,
                ),
            ],
        )
    }
}

/// The dialog of a synced workspace that was signed out of and did not close.
pub fn signed_out_card(s: &SyncState) -> (r: SyncCard)
    ensures
        r@ == signed_out_view(s@),
{
    let mut c = card(
        "Signed out",
        "Zeron removed your credentials but could not finish closing the previous synced workspace. Retry before continuing in local mode.",
        one_button(
            button(
                if s.changing {
                    "Stopping engine…"
                } else {
                    "Retry local mode"
                },
                CardAction::RetryLocal,
            ),
        ),
    );
    c.error = crate::markdown::copy_opt(&s.error);
    c
}

/// What stands in place of the shell without an engine or an account.
pub open spec fn entry_card_of(failure: Option<Seq<char>>) -> CardView {
    match failure {
        Some(why) => plain_card(Seq::empty(), why, seq![("Retry"@, CardAction::RetryEngine)]),
        None => plain_card(
            "Log in to Zeron"@,
            "This opens your browser to finish logging in — you'll come right back."@,
            seq![("Log in"@, CardAction::SignIn)],
        ),
    }
}

/// What stands in place of the shell: why the engine failed, or the way to an
/// account.
pub fn entry_card(failure: &Option<String>) -> (r: SyncCard)
    ensures
        r@ == entry_card_of(crate::markdown::opt_text(*failure)),
{
    match failure {
        Some(why) => {
            proof {
                reveal_strlit("");
            }
            let r = card("", why.as_str(), one_button(button("Retry", CardAction::RetryEngine)));
            assert(r@.title =~= Seq::empty());
            r
        },
        None => card(
            "Log in to Zeron",
            "This opens your browser to finish logging in — you'll come right back.",
            one_button(button("Log in", CardAction::SignIn)),
        ),
    }
}

/// The text of a character in upper case.
pub uninterp spec fn upper_text(c: char) -> Seq<char>;

/// `char::to_uppercase`, its characters as a text. They depend on the character
/// alone.
#[verifier::external_body]
fn uppercase(c: char) -> (r: String)
    ensures
        r@ == upper_text(c),
{
    c.to_uppercase().to_string()
}

/// What an avatar shows of a name: its first character in upper case, and a
/// question mark for no name.
pub fn user_initial(name: &str) -> (r: String)
    ensures
        r@ == if name@.len() == 0 {
            "?"@
        } else {
            upper_text(name@[0])
        },
{
    let v = crate::text::chars_of(name);
    if v.len() == 0 {
        "?".to_owned()
    } else {
        uppercase(v[0])
    }
}

/// The rows of the account menu: the action where there is one, then the
/// settings.
pub open spec fn menu_rows_of(action: Option<AccountMenuAction>) -> Seq<Seq<char>> {
    match action {
        Some(a) => seq![row_label(a), "Settings"@],
        None => seq!["Settings"@],
    }
}

/// The rows of the account menu.
pub fn account_menu_rows(scope: Option<WorkspaceScope>, flow: SyncFlow) -> (r: Vec<String>)
    ensures
        crate::text::texts(r@) == menu_rows_of(crate::account::menu_action(scope, flow)),
{
    let action = crate::account::account_menu_action(scope, flow);
    let mut r: Vec<String> = Vec::new();
    if let Some(a) = action {
        r.push(menu_label(a).to_owned());
    }
    r.push("Settings".to_owned());
    assert(crate::text::texts(r@) =~= menu_rows_of(action));
    r
}

/// The row of the account menu for an action.
pub open spec fn row_label(action: AccountMenuAction) -> Seq<char> {
    match action {
        AccountMenuAction::EnableSync => "Enable sync"@,
        AccountMenuAction::SyncInProgress => "Sync setup in progress"@,
        AccountMenuAction::RestartPending => "Finish sync setup"@,
        AccountMenuAction::SignOut => "Sign out"@,
    }
}

/// The row of the account menu for an action.
pub fn menu_label(action: AccountMenuAction) -> (r: &'static str)
    ensures
        r@ == row_label(action),
{
    match action {
        AccountMenuAction::EnableSync => "Enable sync",
        AccountMenuAction::SyncInProgress => "Sync setup in progress",
        AccountMenuAction::RestartPending => "Finish sync setup",
        AccountMenuAction::SignOut => "Sign out",
    }
}

// ---------------------------------------------------------------------------
// The choice of a workspace
// ---------------------------------------------------------------------------

/// A workspace that one belongs to.
pub struct OrgRow {
    pub organization_id: String,
    pub name: String,
}

/// The workspaces that one belongs to, as far as they are known.
pub enum OrgList {
    Idle,
    Loading,
    Error(String),
    Ready(Vec<OrgRow>),
}

/// The choice of a workspace.
pub struct OrgGate {
    pub orgs: OrgList,
    pub submitting: bool,
    pub error: Option<String>,
}

/// What asking for a new workspace comes to.
pub enum CreateStep {
    /// Nothing to do.
    Nothing,
    /// The name does not do.
    BadName,
    /// Ask the engine for a workspace of this name.
    Create(String),
}

impl OrgGate {
    /// Nothing asked for.
    pub fn new() -> (r: Self)
        ensures
            r.orgs is Idle,
            !r.submitting,
            r.error is None,
    {
        OrgGate { orgs: OrgList::Idle, submitting: false, error: None }
    }

    /// The workspaces are asked for.
    pub fn load(&mut self)
        ensures
            *final(self) == (OrgGate { orgs: OrgList::Loading, ..*old(self) }),
    {
        self.orgs = OrgList::Loading;
    }

    /// The workspaces came, or did not.
    pub fn loaded(&mut self, result: Result<Vec<OrgRow>, String>)
        ensures
            *final(self) == (OrgGate {
                orgs: match result {
                    Ok(rows) => OrgList::Ready(rows),
                    Err(why) => OrgList::Error(why),
                },
                ..*old(self)
            }),
    {
        self.orgs = match result {
            Ok(rows) => OrgList::Ready(rows),
            Err(why) => OrgList::Error(why),
        };
    }

    /// Asks for a workspace of the name that stands in the field, its ends
    /// trimmed; `valid` says whether that name does.
    pub fn create(&mut self, connected: bool, text: &str, valid: bool) -> (r: CreateStep)
        ensures
            match r {
                CreateStep::Nothing => (!connected || old(self).submitting) && *final(self)
                    == *old(self),
                CreateStep::BadName => connected && !old(self).submitting && !valid
                    && final(self).orgs == old(self).orgs && final(self).submitting
                    == old(self).submitting && crate::markdown::opt_text(final(self).error) == Some(
                    "Enter a workspace name"@,
                ),
                CreateStep::Create(name) => connected && !old(self).submitting && valid && name@
                    == crate::text::trim(text@) && *final(self) == (OrgGate {
                    submitting: true,
                    error: None,
                    ..*old(self)
                }),
            },
    {
        if !connected || self.submitting {
            return CreateStep::Nothing;
        }
        if !valid {
            self.error = Some("Enter a workspace name".to_owned());
            return CreateStep::BadName;
        }
        self.submitting = true;
        self.error = None;
        CreateStep::Create(crate::text::trimmed(text))
    }

    /// Asks for a workspace that one belongs to.
    pub fn select(&mut self, connected: bool) -> (r: bool)
        ensures
            r == connected,
            *final(self) == if connected {
                OrgGate { submitting: true, error: None, ..*old(self) }
            } else {
                *old(self)
            },
    {
        if connected {
            self.submitting = true;
            self.error = None;
        }
        connected
    }

    /// The engine answered: where it refused, that is shown. Where it did not,
    /// who is signed in changes and the choice falls away.
    pub fn submitted(&mut self, result: Result<(), String>)
        ensures
            *final(self) == (OrgGate {
                submitting: false,
                error: match result {
                    Ok(_) => old(self).error,
                    Err(why) => Some(why),
                },
                ..*old(self)
            }),
    {
        self.submitting = false;
        if let Err(why) = result {
            self.error = Some(why);
        }
    }
}

/// What the choice of a workspace says.
pub open spec fn gate_text(email: Option<Seq<char>>) -> Seq<char> {
    let head =
        "Zeron is organized around workspaces — create one for yourself or your team."@;
    match email {
        Some(e) => head + " Signed in as "@ + e + "."@,
        None => head,
    }
}

/// What the choice of a workspace says.
pub fn org_gate_blurb(email: &Option<String>) -> (r: String)
    ensures
        r@ == gate_text(crate::markdown::opt_text(*email)),
{
    let mut s =
        "Zeron is organized around workspaces — create one for yourself or your team.".to_owned();
    if let Some(e) = email {
        crate::text::push_text(&mut s, " Signed in as ");
        crate::text::push_text(&mut s, e.as_str());
        crate::text::push_text(&mut s, ".");
    }
    s
}

/// The labels of the button that creates, and of the way out.
pub fn org_gate_labels(submitting: bool, scope: Option<WorkspaceScope>) -> (r: (
    &'static str,
    &'static str,
))
    ensures
        r.0@ == if submitting {
            "Creating…"@
        } else {
            "Create"@
        },
        r.1@ == if scope == Some(WorkspaceScope::Local) {
            "Cancel sync setup"@
        } else {
            "Use a different account"@
        },
{
    let create = if submitting {
        "Creating…"
    } else {
        "Create"
    };
    match scope {
        Some(WorkspaceScope::Local) => (create, "Cancel sync setup"),
        _ => (create, "Use a different account"),
    }
}

/// What shows of the workspaces that one belongs to.
pub enum Memberships {
    /// Bars in their place while they load.
    Skeleton,
    /// Why they did not load, and a retry.
    Failed(String),
    Nothing,
    /// One row for each, by its name, that continues in it.
    Rows(Vec<String>),
}

/// What a [`Memberships`] holds.
#[verifier::ext_equal]
pub enum MembershipsView {
    Skeleton,
    Failed(Seq<char>),
    Nothing,
    Rows(Seq<Seq<char>>),
}

impl View for Memberships {
    type V = MembershipsView;

    open spec fn view(&self) -> MembershipsView {
        match self {
            Memberships::Skeleton => MembershipsView::Skeleton,
            Memberships::Failed(why) => MembershipsView::Failed(why@),
            Memberships::Nothing => MembershipsView::Nothing,
            Memberships::Rows(names) => MembershipsView::Rows(crate::text::texts(names@)),
        }
    }
}

/// The names of workspaces.
pub open spec fn org_names(rows: Seq<OrgRow>) -> Seq<Seq<char>> {
    Seq::new(rows.len(), |i: int| rows[i].name@)
}

/// What shows of a list of workspaces.
pub open spec fn shown_orgs(orgs: OrgList) -> MembershipsView {
    match orgs {
        OrgList::Idle => MembershipsView::Skeleton,
        OrgList::Loading => MembershipsView::Skeleton,
        OrgList::Error(why) => MembershipsView::Failed(why@),
        OrgList::Ready(rows) => if rows@.len() == 0 {
            MembershipsView::Nothing
        } else {
            MembershipsView::Rows(org_names(rows@))
        },
    }
}

/// What shows of the workspaces that one belongs to.
pub fn memberships(orgs: &OrgList) -> (r: Memberships)
    ensures
        r@ == shown_orgs(*orgs),
{
    let rows = match orgs {
        OrgList::Idle => {
            return Memberships::Skeleton;
        },
        OrgList::Loading => {
            return Memberships::Skeleton;
        },
        OrgList::Error(why) => {
            return Memberships::Failed(why.clone());
        },
        OrgList::Ready(rows) => rows,
    };
    if rows.len() == 0 {
        return Memberships::Nothing;
    }
    let mut names: Vec<String> = Vec::new();
    let mut i: usize = 0;
    while i < rows.len()
        invariant
            i <= rows@.len(),
            crate::text::texts(names@) =~= org_names(rows@).take(i as int),
        decreases rows.len() - i,
    {
        let ghost before = names@;
        names.push(rows[i].name.clone());
        assert(crate::text::texts(names@) =~= crate::text::texts(before).push(rows@[i as int].name@));
        assert(org_names(rows@).take(i + 1) =~= org_names(rows@).take(i as int).push(
            rows@[i as int].name@,
        ));
        i += 1;
    }
    assert(org_names(rows@).take(i as int) =~= org_names(rows@));
    Memberships::Rows(names)
}

/// A dialog shows exactly while the flow has one to show: nothing covers the
/// shell when nothing is asked or under way.
pub proof fn law_idle_shows_nothing(
    s: crate::account::SyncView,
    auth: Option<AuthState>,
    remote: bool,
    chats: usize,
    spaces: usize,
)
    ensures
        (overlay_of(s, auth, remote, chats, spaces) is Nothing) == (s.flow is Idle || s.flow
            is SignedOutRestartRequired || (s.flow.can_wait() && s.flow == s.flow.with_notice(
            false,
        ))),
{
}

} // verus!
