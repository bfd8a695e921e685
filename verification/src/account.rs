//! Signing in and out, and moving between a local and a synced workspace.
//!
//! The engine is stopped, started and called elsewhere; here stands what each
//! of those calls, and each answer, makes of the flow.
use vstd::prelude::*;

verus! {

/// Which workspace the runtime serves.
#[derive(Debug, Clone, Copy, PartialEq, Eq, Structural)]
pub enum WorkspaceScope {
    Local,
    Synced,
    Development,
}

/// Who is signed in.
pub enum AuthState {
    SignedOut,
    /// Signed in, with no workspace yet.
    NeedsOrganization { email: String },
    SignedIn { email: String },
}

/// Where turning sync on or off stands.
#[derive(Debug, Clone, Copy, PartialEq, Eq, Structural)]
#[allow(inconsistent_fields)]
pub enum SyncFlow {
    Idle,
    /// The browser is open for signing in.
    Enabling,
    /// The partial sign-in is being removed.
    Canceling,
    /// Signed in on a local runtime: bring local work, start fresh, or later.
    SwitchOffer { notice_open: bool },
    /// The local runtime stops and the synced one starts in its place.
    Switching { import: bool },
    /// Local work is being copied into the synced runtime.
    Importing { done: usize, total: usize },
    /// All was copied; stays until it is dismissed.
    ImportDone { imported: usize, skipped: usize },
    /// Something was not copied. Postponed, it stays within reach of the
    /// account menu: nothing else leads back to the retry.
    ImportFailed { notice_open: bool },
    /// The switch is left to a restart.
    RestartPending { notice_open: bool },
    SignOutConfirm,
    SigningOut,
    SignedOutRestartRequired,
}

impl SyncFlow {
    /// Whether the switch itself drives the flow.
    pub open spec fn in_switch(self) -> bool {
        self is Switching || self is Importing || self is ImportDone || self is ImportFailed
    }

    /// Whether the in-place switch drives the flow, from its start to its end.
    /// No change of who is signed in may reset it then.
    pub fn is_switch_lifecycle(self) -> (r: bool)
        ensures
            r == self.in_switch(),
    {
        match self {
            SyncFlow::Switching { .. } => true,
            SyncFlow::Importing { .. } => true,
            SyncFlow::ImportDone { .. } => true,
            SyncFlow::ImportFailed { .. } => true,
            _ => false,
        }
    }

    /// Whether the flow can be put off and taken up again.
    pub open spec fn can_wait(self) -> bool {
        self is RestartPending || self is SwitchOffer || self is ImportFailed
    }

    /// The same step with its notice open or put away.
    pub open spec fn with_notice(self, open: bool) -> SyncFlow {
        match self {
            SyncFlow::RestartPending { .. } => SyncFlow::RestartPending { notice_open: open },
            SyncFlow::SwitchOffer { .. } => SyncFlow::SwitchOffer { notice_open: open },
            SyncFlow::ImportFailed { .. } => SyncFlow::ImportFailed { notice_open: open },
            _ => self,
        }
    }
}

/// What the account menu offers besides the settings.
#[derive(Debug, Clone, Copy, PartialEq, Eq, Structural)]
pub enum AccountMenuAction {
    EnableSync,
    SyncInProgress,
    /// Take up what was put off.
    RestartPending,
    SignOut,
}

/// What the account menu offers.
pub open spec fn menu_action(scope: Option<WorkspaceScope>, flow: SyncFlow) -> Option<
    AccountMenuAction,
> {
    match scope {
        Some(WorkspaceScope::Local) => if flow is Idle {
            Some(AccountMenuAction::EnableSync)
        } else if flow.can_wait() {
            Some(AccountMenuAction::RestartPending)
        } else if flow is SignOutConfirm || flow is SigningOut || flow is SignedOutRestartRequired {
            None
        } else {
            Some(AccountMenuAction::SyncInProgress)
        },
        Some(WorkspaceScope::Synced) => if flow is SignedOutRestartRequired {
            None
        } else if flow is ImportFailed {
            Some(AccountMenuAction::RestartPending)
        } else if flow.in_switch() {
            Some(AccountMenuAction::SyncInProgress)
        } else {
            Some(AccountMenuAction::SignOut)
        },
        _ => None,
    }
}

/// What the account menu offers.
pub fn account_menu_action(scope: Option<WorkspaceScope>, flow: SyncFlow) -> (r: Option<
    AccountMenuAction,
>)
    ensures
        r == menu_action(scope, flow),
{
    match scope {
        Some(WorkspaceScope::Local) => match flow {
            SyncFlow::Idle => Some(AccountMenuAction::EnableSync),
            SyncFlow::SwitchOffer { .. } => Some(AccountMenuAction::RestartPending),
            SyncFlow::RestartPending { .. } => Some(AccountMenuAction::RestartPending),
            SyncFlow::ImportFailed { .. } => Some(AccountMenuAction::RestartPending),
            SyncFlow::SignOutConfirm => None,
            SyncFlow::SigningOut => None,
            SyncFlow::SignedOutRestartRequired => None,
            _ => Some(AccountMenuAction::SyncInProgress),
        },
        Some(WorkspaceScope::Synced) => match flow {
            SyncFlow::SignedOutRestartRequired => None,
            SyncFlow::ImportFailed { .. } => Some(AccountMenuAction::RestartPending),
            _ => if flow.is_switch_lifecycle() {
                Some(AccountMenuAction::SyncInProgress)
            } else {
                Some(AccountMenuAction::SignOut)
            },
        },
        _ => None,
    }
}

/// The flow after it became known who is signed in.
pub open spec fn flow_after_auth(
    flow: SyncFlow,
    scope: Option<WorkspaceScope>,
    auth: Option<AuthState>,
) -> SyncFlow {
    match scope {
        Some(WorkspaceScope::Local) => if flow.in_switch() {
            flow
        } else {
            match auth {
                Some(AuthState::SignedOut) => if flow is SwitchOffer || flow is RestartPending {
                    SyncFlow::Idle
                } else {
                    flow
                },
                Some(AuthState::SignedIn { .. }) => if flow is Canceling || flow is SwitchOffer
                    || flow is RestartPending {
                    flow
                } else {
                    SyncFlow::SwitchOffer { notice_open: true }
                },
                _ => flow,
            }
        },
        Some(WorkspaceScope::Synced) => if auth matches Some(a) && a is SignedOut {
            SyncFlow::SignedOutRestartRequired
        } else if flow is SignOutConfirm || flow is SigningOut || flow is SignedOutRestartRequired
            || flow.in_switch() {
            flow
        } else {
            SyncFlow::Idle
        },
        Some(WorkspaceScope::Development) => SyncFlow::Idle,
        None => flow,
    }
}

/// What an optional reference refers to.
pub open spec fn opt_auth(a: Option<&AuthState>) -> Option<AuthState> {
    match a {
        Some(a) => Some(*a),
        None => None,
    }
}

/// The flow after it became known who is signed in. On a local runtime every
/// view offers the switch once any of them has signed in; a synced runtime that
/// lost its credentials stops for all of them.
pub fn sync_flow_after_auth(
    flow: SyncFlow,
    scope: Option<WorkspaceScope>,
    auth: Option<&AuthState>,
) -> (r: SyncFlow)
    ensures
        r == flow_after_auth(flow, scope, opt_auth(auth)),
{
    match scope {
        Some(WorkspaceScope::Local) => {
            if flow.is_switch_lifecycle() {
                return flow;
            }
            match auth {
                Some(AuthState::SignedOut) => match flow {
                    SyncFlow::SwitchOffer { .. } => SyncFlow::Idle,
                    SyncFlow::RestartPending { .. } => SyncFlow::Idle,
                    _ => flow,
                },
                Some(AuthState::SignedIn { .. }) => match flow {
                    SyncFlow::Canceling => flow,
                    SyncFlow::SwitchOffer { .. } => flow,
                    SyncFlow::RestartPending { .. } => flow,
                    _ => SyncFlow::SwitchOffer { notice_open: true },
                },
                _ => flow,
            }
        },
        Some(WorkspaceScope::Synced) => match auth {
            Some(AuthState::SignedOut) => SyncFlow::SignedOutRestartRequired,
            _ => match flow {
                SyncFlow::SignOutConfirm => flow,
                SyncFlow::SigningOut => flow,
                SyncFlow::SignedOutRestartRequired => flow,
                _ => if flow.is_switch_lifecycle() {
                    flow
                } else {
                    SyncFlow::Idle
                },
            },
        },
        Some(WorkspaceScope::Development) => SyncFlow::Idle,
        None => flow,
    }
}

/// A number of things by their name.
pub open spec fn counted(n: usize, word: Seq<char>) -> Seq<char> {
    crate::text::decimal(n as nat) + " "@ + word + plural_s(n)
}

/// The ending of a name for a number of things.
pub open spec fn plural_s(n: usize) -> Seq<char> {
    if n == 1 {
        ""@
    } else {
        "s"@
    }
}

pub(crate) fn plural_ending(n: usize) -> (r: &'static str)
    ensures
        r@ == plural_s(n),
{
    if n == 1 {
        ""
    } else {
        "s"
    }
}

fn push_counted(s: &mut String, n: usize, word: &str)
    ensures
        final(s)@ == old(s)@ + counted(n, word@),
{
    let ghost before = s@;
    crate::text::push_decimal(s, n as u64);
    crate::text::push_text(s, " ");
    crate::text::push_text(s, word);
    crate::text::push_text(s, plural_ending(n));
    assert(s@ =~= before + counted(n, word@));
}

/// What a switch would bring along.
pub open spec fn work_phrase(chats: usize, spaces: usize) -> Option<Seq<char>> {
    if chats == 0 && spaces == 0 {
        None
    } else if spaces == 0 {
        Some("the "@ + counted(chats, "session"@))
    } else if chats == 0 {
        Some("the "@ + counted(spaces, "project"@))
    } else {
        Some("the "@ + counted(chats, "session"@) + " and "@ + counted(spaces, "project"@))
    }
}

/// What a switch would bring along; nothing for an empty local workspace.
/// Projects alone are work too.
pub fn local_work_phrase(chats: usize, spaces: usize) -> (r: Option<String>)
    ensures
        crate::markdown::opt_text(r) == work_phrase(chats, spaces),
{
    if chats == 0 && spaces == 0 {
        return None;
    }
    let mut s = "the ".to_owned();
    if chats > 0 {
        push_counted(&mut s, chats, "session");
        if spaces > 0 {
            crate::text::push_text(&mut s, " and ");
        }
    }
    if spaces > 0 {
        push_counted(&mut s, spaces, "project");
    }
    assert(s@ =~= work_phrase(chats, spaces)->0);
    Some(s)
}

/// What an import's summary comes to.
pub open spec fn summary_outcome(
    imported: u64,
    skipped: u64,
    errors: Seq<Seq<char>>,
) -> Result<(usize, usize), Seq<char>> {
    if errors.len() == 0 {
        Ok((imported as usize, skipped as usize))
    } else {
        let head = crate::text::decimal((imported as usize) as nat) + " imported, "@;
        Err(
            if errors.len() == 1 {
                head + "1 failure: "@ + errors[0]
            } else {
                head + crate::text::decimal(errors.len()) + " failures — first: "@ + errors[0]
            },
        )
    }
}

/// What a result with a text for its error holds.
pub open spec fn outcome_view<T>(r: Result<T, String>) -> Result<T, Seq<char>> {
    match r {
        Ok(v) => Ok(v),
        Err(e) => Err(e@),
    }
}

/// What an import's summary comes to, given its counts and errors: a success
/// only where nothing failed.
pub fn outcome_of_summary(imported: u64, skipped: u64, errors: &Vec<String>) -> (r: Result<
    (usize, usize),
    String,
>)
    ensures
        outcome_view(r) == summary_outcome(imported, skipped, crate::text::texts(errors@)),
{
    assert(crate::text::texts(errors@).len() == errors@.len());
    if errors.len() == 0 {
        return Ok((imported as usize, skipped as usize));
    }
    let mut s = String::new();
    crate::text::push_decimal(&mut s, (imported as usize) as u64);
    crate::text::push_text(&mut s, " imported, ");
    if errors.len() == 1 {
        crate::text::push_text(&mut s, "1 failure: ");
    } else {
        crate::text::push_decimal(&mut s, errors.len() as u64);
        crate::text::push_text(&mut s, " failures — first: ");
    }
    crate::text::push_text(&mut s, errors[0].as_str());
    assert(errors.len() == errors@.len());
    assert(s@ =~= summary_outcome(imported, skipped, crate::text::texts(errors@))->Err_0);
    Err(s)
}

/// What the summary item of an import holds.
pub open spec fn item_outcome(item: serde_json::Value) -> Result<(usize, usize), Seq<char>> {
    summary_outcome(
        crate::json::count_field(item, "importedChats"@),
        crate::json::count_field(item, "skippedChats"@),
        crate::json::text_items(item, "errors"@),
    )
}

/// What the summary item of an import means: how much was imported and
/// skipped, or how it failed.
pub fn import_summary_outcome(item: &serde_json::Value) -> (r: Result<(usize, usize), String>)
    ensures
        outcome_view(r) == item_outcome(*item),
{
    let imported = crate::json::read_count(item, "importedChats");
    let skipped = crate::json::read_count(item, "skippedChats");
    let errors = crate::json::read_texts(item, "errors");
    outcome_of_summary(imported, skipped, &errors)
}

/// Whether the stopped engine has let go of its port and its data.
#[derive(Debug, Clone, Copy, PartialEq, Eq, Structural)]
pub enum StopStep {
    Stopped,
    TimedOut,
    PollAgain,
}

/// What to do after a look at the stopped engine: it is done once the port is
/// closed and nobody holds the data, even past the deadline.
pub fn stop_step(port_closed: bool, data_held: bool, past_deadline: bool) -> (r: StopStep)
    ensures
        r == if port_closed && !data_held {
            StopStep::Stopped
        } else if past_deadline {
            StopStep::TimedOut
        } else {
            StopStep::PollAgain
        },
{
    if port_closed && !data_held {
        StopStep::Stopped
    } else if past_deadline {
        StopStep::TimedOut
    } else {
        StopStep::PollAgain
    }
}

/// What is said of an engine that did not stop in time.
pub open spec fn timeout_text(seconds: u64) -> Seq<char> {
    "the daemon did not finish stopping within "@ + crate::text::decimal(seconds as nat)
        + " seconds"@
}

/// What is said of an engine that did not stop in time.
pub fn stop_timeout_message(seconds: u64) -> (r: String)
    ensures
        r@ == timeout_text(seconds),
{
    let mut s = "the daemon did not finish stopping within ".to_owned();
    crate::text::push_decimal(&mut s, seconds);
    crate::text::push_text(&mut s, " seconds");
    s
}

/// How stopping an engine ended: the refusal of the stop request counts only
/// where the wait failed too.
pub open spec fn stopped(
    refused: Option<Seq<char>>,
    waited: Result<(), Seq<char>>,
) -> Result<(), Seq<char>> {
    match (waited, refused) {
        (Ok(_), _) => Ok(()),
        (Err(e), Some(s)) => Err(s + "; "@ + e),
        (Err(e), None) => Err(e),
    }
}

/// How stopping an engine ended.
pub fn stop_outcome(refused: Option<String>, waited: Result<(), String>) -> (r: Result<(), String>)
    ensures
        outcome_view(r) == stopped(crate::markdown::opt_text(refused), outcome_view(waited)),
{
    match waited {
        Ok(()) => Ok(()),
        Err(e) => match refused {
            Some(s) => {
                let mut t = s.clone();
                crate::text::push_text(&mut t, "; ");
                crate::text::push_text(&mut t, e.as_str());
                Err(t)
            },
            None => Err(e),
        },
    }
}

// ---------------------------------------------------------------------------
// The flow and what drives it
// ---------------------------------------------------------------------------

/// The flow, what is said of its last failure, and what is under way.
pub struct SyncState {
    pub flow: SyncFlow,
    /// What is said of the last failure.
    pub error: Option<String>,
    /// The title of the session being copied.
    pub current: Option<String>,
    /// A runtime is being stopped.
    pub changing: bool,
    /// Local work is being copied.
    pub importing: bool,
}

/// What a [`SyncState`] holds.
#[verifier::ext_equal]
pub struct SyncView {
    pub flow: SyncFlow,
    pub error: Option<Seq<char>>,
    pub current: Option<Seq<char>>,
    pub changing: bool,
    pub importing: bool,
}

impl View for SyncState {
    type V = SyncView;

    open spec fn view(&self) -> SyncView {
        SyncView {
            flow: self.flow,
            error: crate::markdown::opt_text(self.error),
            current: crate::markdown::opt_text(self.current),
            changing: self.changing,
            importing: self.importing,
        }
    }
}

/// What is said where there is no engine.
pub open spec fn no_engine() -> Seq<char> {
    "Engine not connected"@
}

impl SyncView {
    /// A switch that is left to a restart.
    pub open spec fn left_to_restart(self, why: Seq<char>) -> SyncView {
        SyncView {
            flow: SyncFlow::RestartPending { notice_open: true },
            error: Some(why),
            ..self
        }
    }

    /// After the wish to switch.
    pub open spec fn switch_asked(self, import: bool, connected: bool) -> SyncView {
        if self.changing {
            self
        } else if !connected {
            self.left_to_restart(no_engine())
        } else {
            SyncView {
                flow: SyncFlow::Switching { import },
                error: None,
                current: None,
                changing: true,
                ..self
            }
        }
    }

    /// After the local runtime was stopped for a switch, or was not.
    pub open spec fn switch_stopped(self, result: Result<(), Seq<char>>) -> SyncView {
        let after = SyncView { changing: false, ..self };
        match result {
            Ok(_) => after,
            Err(why) => after.left_to_restart(why),
        }
    }

    /// After the wish to sign out, or to leave a synced runtime.
    pub open spec fn leave_asked(self, connected: bool) -> SyncView {
        if self.changing {
            self
        } else if !connected {
            SyncView {
                flow: SyncFlow::SignedOutRestartRequired,
                error: Some(no_engine()),
                ..self
            }
        } else {
            SyncView { flow: SyncFlow::SigningOut, error: None, changing: true, ..self }
        }
    }

    /// After the synced runtime was stopped, or was not.
    pub open spec fn left(self, result: Result<(), Seq<char>>) -> SyncView {
        match result {
            Ok(_) => SyncView { flow: SyncFlow::Idle, error: None, changing: false, ..self },
            Err(why) => SyncView {
                flow: SyncFlow::SignedOutRestartRequired,
                error: Some(why),
                changing: false,
                ..self
            },
        }
    }

    /// After the wish to copy local work.
    pub open spec fn import_asked(self, connected: bool) -> SyncView {
        if self.importing {
            self
        } else if !connected {
            self.left_to_restart(no_engine())
        } else {
            SyncView {
                flow: SyncFlow::Importing { done: 0, total: 0 },
                error: None,
                importing: true,
                ..self
            }
        }
    }

    /// After a look at the runtime that was started for a switch.
    pub open spec fn driven(
        self,
        ready: bool,
        failed: Option<Seq<char>>,
        scope: Option<WorkspaceScope>,
        connected: bool,
    ) -> SyncView {
        match self.flow {
            SyncFlow::Switching { import } => if self.changing {
                self
            } else if !ready {
                match failed {
                    Some(why) => self.left_to_restart(why),
                    None => self,
                }
            } else {
                match scope {
                    Some(WorkspaceScope::Synced) => if import {
                        self.import_asked(connected)
                    } else {
                        SyncView { flow: SyncFlow::Idle, ..self }
                    },
                    Some(_) => self.left_to_restart(
                        "The synced workspace did not come up — restart to finish."@,
                    ),
                    None => self,
                }
            },
            _ => self,
        }
    }

    /// After an item of the import.
    pub open spec fn imported(self, item: serde_json::Value) -> SyncView {
        let kind = crate::json::text_field(item, "kind"@);
        if kind == Some("start"@) {
            SyncView {
                flow: SyncFlow::Importing {
                    done: 0,
                    total: crate::json::count_field(item, "chats"@) as usize,
                },
                ..self
            }
        } else if kind == Some("chat"@) {
            SyncView {
                flow: SyncFlow::Importing {
                    done: crate::json::count_field(item, "index"@) as usize,
                    total: crate::json::count_field(item, "total"@) as usize,
                },
                current: crate::json::text_field(item, "title"@),
                ..self
            }
        } else if kind == Some("summary"@) {
            self.summed_up(item_outcome(item))
        } else {
            self
        }
    }

    /// After the summary of an import.
    pub open spec fn summed_up(self, outcome: Result<(usize, usize), Seq<char>>) -> SyncView {
        match outcome {
            Ok((imported, skipped)) => SyncView {
                flow: SyncFlow::ImportDone { imported, skipped },
                current: None,
                ..self
            },
            Err(why) => SyncView {
                flow: SyncFlow::ImportFailed { notice_open: true },
                error: Some(why),
                current: None,
                ..self
            },
        }
    }

    /// After an import's stream ended, for a reason or without one.
    pub open spec fn import_over(self, why: Seq<char>) -> SyncView {
        if self.flow is Importing {
            SyncView {
                flow: SyncFlow::ImportFailed { notice_open: true },
                error: Some(why),
                importing: false,
                ..self
            }
        } else {
            SyncView { importing: false, ..self }
        }
    }
}

/// What a wish comes to.
#[derive(Debug, Clone, Copy, PartialEq, Eq, Structural)]
pub enum WishStep {
    /// Something is under way already.
    Busy,
    /// There is no engine to do it.
    Refused,
    /// Do it.
    Go,
}

/// What quitting for a change of runtime comes to.
#[derive(Debug, Clone, Copy, PartialEq, Eq, Structural)]
pub enum QuitStep {
    Refused,
    Busy,
    Quit,
    /// Stop the engine first.
    StopEngine,
}

/// What a wish comes to.
pub open spec fn wish(busy: bool, connected: bool) -> WishStep {
    if busy {
        WishStep::Busy
    } else if !connected {
        WishStep::Refused
    } else {
        WishStep::Go
    }
}

impl SyncState {
    /// Nothing under way.
    pub fn new() -> (r: Self)
        ensures
            r@ == (SyncView {
                flow: SyncFlow::Idle,
                error: None,
                current: None,
                changing: false,
                importing: false,
            }),
    {
        SyncState {
            flow: SyncFlow::Idle,
            error: None,
            current: None,
            changing: false,
            importing: false,
        }
    }

    /// It became known who is signed in.
    pub fn note_auth(&mut self, scope: Option<WorkspaceScope>, auth: Option<&AuthState>)
        ensures
            final(self)@ == (SyncView {
                flow: flow_after_auth(old(self)@.flow, scope, opt_auth(auth)),
                ..old(self)@
            }),
    {
        self.flow = sync_flow_after_auth(self.flow, scope, auth);
    }

    /// Asks whether to sign out; only a synced runtime can.
    pub fn request_sign_out(&mut self, scope: Option<WorkspaceScope>) -> (r: bool)
        ensures
            r == (scope == Some(WorkspaceScope::Synced)),
            final(self)@ == if r {
                SyncView { flow: SyncFlow::SignOutConfirm, ..old(self)@ }
            } else {
                old(self)@
            },
    {
        match scope {
            Some(WorkspaceScope::Synced) => {
                self.flow = SyncFlow::SignOutConfirm;
                true
            },
            _ => false,
        }
    }

    /// A dialog was dismissed for good: the question of signing out, or the
    /// news that all was imported.
    pub fn dismiss(&mut self)
        ensures
            final(self)@ == (SyncView { flow: SyncFlow::Idle, ..old(self)@ }),
    {
        self.flow = SyncFlow::Idle;
    }

    /// Leaves the synced runtime for the local one.
    pub fn start_local_runtime_transition(&mut self, connected: bool) -> (r: WishStep)
        ensures
            final(self)@ == old(self)@.leave_asked(connected),
            r == wish(old(self)@.changing, connected),
    {
        if self.changing {
            return WishStep::Busy;
        }
        if !connected {
            self.error = Some("Engine not connected".to_owned());
            self.flow = SyncFlow::SignedOutRestartRequired;
            return WishStep::Refused;
        }
        self.flow = SyncFlow::SigningOut;
        self.error = None;
        self.changing = true;
        WishStep::Go
    }

    /// The synced runtime was left, or was not. Says whether to start the local
    /// one.
    pub fn local_runtime_ended(&mut self, result: Result<(), String>) -> (r: bool)
        ensures
            final(self)@ == old(self)@.left(outcome_view(result)),
            r == (result is Ok),
    {
        self.changing = false;
        match result {
            Ok(()) => {
                self.flow = SyncFlow::Idle;
                self.error = None;
                true
            },
            Err(why) => {
                self.flow = SyncFlow::SignedOutRestartRequired;
                self.error = Some(why);
                false
            },
        }
    }

    /// Puts the notice away.
    pub fn postpone_sync_restart(&mut self) -> (r: bool)
        ensures
            r == old(self)@.flow.can_wait(),
            final(self)@ == (SyncView { flow: old(self)@.flow.with_notice(false), ..old(self)@ }),
    {
        self.set_notice(false)
    }

    /// Opens the notice again.
    pub fn reopen_sync_notice(&mut self) -> (r: bool)
        ensures
            r == old(self)@.flow.can_wait(),
            final(self)@ == (SyncView { flow: old(self)@.flow.with_notice(true), ..old(self)@ }),
    {
        self.set_notice(true)
    }

    fn set_notice(&mut self, open: bool) -> (r: bool)
        ensures
            r == old(self)@.flow.can_wait(),
            final(self)@ == (SyncView { flow: old(self)@.flow.with_notice(open), ..old(self)@ }),
    {
        match self.flow {
            SyncFlow::RestartPending { .. } => {
                self.flow = SyncFlow::RestartPending { notice_open: open };
                true
            },
            SyncFlow::SwitchOffer { .. } => {
                self.flow = SyncFlow::SwitchOffer { notice_open: open };
                true
            },
            SyncFlow::ImportFailed { .. } => {
                self.flow = SyncFlow::ImportFailed { notice_open: open };
                true
            },
            _ => false,
        }
    }

    fn leave_to_restart(&mut self, why: String)
        ensures
            final(self)@ == old(self)@.left_to_restart(why@),
    {
        self.flow = SyncFlow::RestartPending { notice_open: true };
        self.error = Some(why);
    }

    /// Switches to the synced runtime, with local work or without it.
    pub fn start_synced_switch(&mut self, import: bool, connected: bool) -> (r: WishStep)
        ensures
            final(self)@ == old(self)@.switch_asked(import, connected),
            r == wish(old(self)@.changing, connected),
    {
        if self.changing {
            return WishStep::Busy;
        }
        if !connected {
            self.leave_to_restart("Engine not connected".to_owned());
            return WishStep::Refused;
        }
        self.flow = SyncFlow::Switching { import };
        self.error = None;
        self.current = None;
        self.changing = true;
        WishStep::Go
    }

    /// The local runtime was stopped for a switch, or was not. Says whether to
    /// start the synced one; the flow stays in its switch until that is up.
    pub fn synced_switch_ended(&mut self, result: Result<(), String>) -> (r: bool)
        ensures
            final(self)@ == old(self)@.switch_stopped(outcome_view(result)),
            r == (result is Ok),
    {
        self.changing = false;
        match result {
            Ok(()) => true,
            Err(why) => {
                self.leave_to_restart(why);
                false
            },
        }
    }

    /// Takes a switch further once the new runtime is up: a synced one gets the
    /// import or ends the flow, any other is left to a restart. Says whether an
    /// import is to start.
    pub fn drive_sync_switch(
        &mut self,
        ready: bool,
        failed: Option<String>,
        scope: Option<WorkspaceScope>,
        connected: bool,
    ) -> (r: bool)
        ensures
            final(self)@ == old(self)@.driven(
                ready,
                crate::markdown::opt_text(failed),
                scope,
                connected,
            ),
            r == (old(self)@.flow == (SyncFlow::Switching { import: true }) && !old(self)@.changing
                && ready && scope == Some(WorkspaceScope::Synced) && !old(self)@.importing
                && connected),
    {
        let import = match self.flow {
            SyncFlow::Switching { import } => import,
            _ => {
                return false;
            },
        };
        if self.changing {
            return false;
        }
        if !ready {
            if let Some(why) = failed {
                self.leave_to_restart(why);
            }
            return false;
        }
        match scope {
            Some(WorkspaceScope::Synced) => if import {
                match self.spawn_local_import(connected) {
                    WishStep::Go => true,
                    _ => false,
                }
            } else {
                self.flow = SyncFlow::Idle;
                false
            },
            Some(_) => {
                self.leave_to_restart(
                    "The synced workspace did not come up — restart to finish.".to_owned(),
                );
                false
            },
            None => false,
        }
    }

    /// Copies local work into the synced runtime, once at a time.
    pub fn spawn_local_import(&mut self, connected: bool) -> (r: WishStep)
        ensures
            final(self)@ == old(self)@.import_asked(connected),
            r == wish(old(self)@.importing, connected),
    {
        if self.importing {
            return WishStep::Busy;
        }
        if !connected {
            self.leave_to_restart("Engine not connected".to_owned());
            return WishStep::Refused;
        }
        self.flow = SyncFlow::Importing { done: 0, total: 0 };
        self.error = None;
        self.importing = true;
        WishStep::Go
    }

    /// Takes in an item of the import. A summary with errors is a failure,
    /// however the stream ended.
    pub fn apply_import_event(&mut self, item: &serde_json::Value)
        ensures
            final(self)@ == old(self)@.imported(*item),
    {
        let kind = match crate::json::read_text(item, "kind") {
            Some(k) => k,
            None => {
                return;
            },
        };
        if kind == "start".to_owned() {
            let total = crate::json::read_count(item, "chats");
            self.flow = SyncFlow::Importing { done: 0, total: total as usize };
        } else if kind == "chat".to_owned() {
            let done = crate::json::read_count(item, "index");
            let total = crate::json::read_count(item, "total");
            self.current = crate::json::read_text(item, "title");
            self.flow = SyncFlow::Importing { done: done as usize, total: total as usize };
        } else if kind == "summary".to_owned() {
            let outcome = import_summary_outcome(item);
            self.apply_summary(outcome);
        }
    }

    /// Takes in what the summary of an import means.
    pub fn apply_summary(&mut self, outcome: Result<(usize, usize), String>)
        ensures
            final(self)@ == old(self)@.summed_up(outcome_view(outcome)),
    {
        self.current = None;
        match outcome {
            Ok((imported, skipped)) => {
                self.flow = SyncFlow::ImportDone { imported, skipped };
            },
            Err(why) => {
                self.flow = SyncFlow::ImportFailed { notice_open: true };
                self.error = Some(why);
            },
        }
    }

    /// The import's stream ended: before its summary that is a failure.
    pub fn import_ended(&mut self)
        ensures
            final(self)@ == (SyncView {
                current: None,
                ..old(self)@.import_over("The import stream ended before it finished."@)
            }),
    {
        self.current = None;
        self.import_failed("The import stream ended before it finished.".to_owned());
    }

    /// The import's stream broke.
    pub fn import_failed(&mut self, why: String)
        ensures
            final(self)@ == old(self)@.import_over(why@),
    {
        self.importing = false;
        if let SyncFlow::Importing { .. } = self.flow {
            self.flow = SyncFlow::ImportFailed { notice_open: true };
            self.error = Some(why);
        }
    }

    /// Quits for a restart; an engine in another process is stopped first.
    pub fn quit_for_runtime_change(&mut self, connected: bool, in_process: bool) -> (r: QuitStep)
        ensures
            r == if !connected {
                QuitStep::Refused
            } else if in_process {
                QuitStep::Quit
            } else if old(self)@.changing {
                QuitStep::Busy
            } else {
                QuitStep::StopEngine
            },
            final(self)@ == match r {
                QuitStep::Refused => SyncView { error: Some(no_engine()), ..old(self)@ },
                QuitStep::StopEngine => SyncView { error: None, changing: true, ..old(self)@ },
                _ => old(self)@,
            },
    {
        if !connected {
            self.error = Some("Engine not connected".to_owned());
            return QuitStep::Refused;
        }
        if in_process {
            return QuitStep::Quit;
        }
        if self.changing {
            return QuitStep::Busy;
        }
        self.error = None;
        self.changing = true;
        QuitStep::StopEngine
    }

    /// The engine was stopped for a restart, or was not. Says whether to quit.
    pub fn quit_ended(&mut self, result: Result<(), String>) -> (r: bool)
        ensures
            r == (result is Ok),
            final(self)@ == (SyncView {
                changing: false,
                error: match result {
                    Ok(_) => old(self)@.error,
                    Err(why) => Some(
                        "Could not stop the remote engine: "@ + why@
                            + ". Run `zeron daemon stop`, then quit and reopen Zeron."@,
                    ),
                },
                ..old(self)@
            }),
    {
        self.changing = false;
        match result {
            Ok(()) => true,
            Err(why) => {
                let mut s = "Could not stop the remote engine: ".to_owned();
                crate::text::push_text(&mut s, why.as_str());
                crate::text::push_text(
                    &mut s,
                    ". Run `zeron daemon stop`, then quit and reopen Zeron.",
                );
                self.error = Some(s);
                false
            },
        }
    }

    /// Signs in. Says whether to ask the engine for the page to open; a runtime
    /// for development has no accounts.
    pub fn start_sign_in(&mut self, scope: Option<WorkspaceScope>, connected: bool) -> (r: bool)
        ensures
            r == (scope != Some(WorkspaceScope::Development) && connected),
            final(self)@ == if scope == Some(WorkspaceScope::Local) {
                SyncView { flow: SyncFlow::Enabling, ..old(self)@ }
            } else {
                old(self)@
            },
    {
        match scope {
            Some(WorkspaceScope::Development) => {
                return false;
            },
            Some(WorkspaceScope::Local) => {
                self.flow = SyncFlow::Enabling;
            },
            _ => {},
        }
        connected
    }

    /// Signing in failed. Gives the notice to show.
    pub fn sign_in_failed(&mut self, scope: Option<WorkspaceScope>, why: &str) -> (r: String)
        ensures
            r@ == "Sign in failed: "@ + why@,
            final(self)@ == if scope == Some(WorkspaceScope::Local) && old(self)@.flow is Enabling {
                SyncView { flow: SyncFlow::Idle, ..old(self)@ }
            } else {
                old(self)@
            },
    {
        if let Some(WorkspaceScope::Local) = scope {
            if let SyncFlow::Enabling = self.flow {
                self.flow = SyncFlow::Idle;
            }
        }
        let mut s = "Sign in failed: ".to_owned();
        crate::text::push_text(&mut s, why);
        s
    }

    /// Gives up signing in. Says whether to ask the engine, once what is
    /// pending has ended.
    pub fn cancel_auth_setup(&mut self, scope: Option<WorkspaceScope>, connected: bool) -> (r: bool)
        ensures
            r == connected,
            final(self)@ == if connected && scope == Some(WorkspaceScope::Local) {
                SyncView { flow: SyncFlow::Canceling, ..old(self)@ }
            } else {
                old(self)@
            },
    {
        if !connected {
            return false;
        }
        if let Some(WorkspaceScope::Local) = scope {
            self.flow = SyncFlow::Canceling;
        }
        true
    }

    /// The sign-in was removed, or was not; `local` says where it was begun.
    /// Gives the notice to show.
    pub fn cancel_ended(&mut self, local: bool, result: Result<(), String>) -> (r: Option<String>)
        ensures
            crate::markdown::opt_text(r) == match result {
                Ok(_) => None,
                Err(why) => Some("Could not cancel sign-in: "@ + why@),
            },
            final(self)@ == if !local {
                old(self)@
            } else if result is Ok {
                SyncView { flow: SyncFlow::Idle, ..old(self)@ }
            } else {
                SyncView { flow: SyncFlow::Enabling, ..old(self)@ }
            },
    {
        match result {
            Ok(()) => {
                if local {
                    self.flow = SyncFlow::Idle;
                }
                None
            },
            Err(why) => {
                if local {
                    self.flow = SyncFlow::Enabling;
                }
                let mut s = "Could not cancel sign-in: ".to_owned();
                crate::text::push_text(&mut s, why.as_str());
                Some(s)
            },
        }
    }
}

// ---------------------------------------------------------------------------
// Laws
// ---------------------------------------------------------------------------

/// Learning again what is known already changes nothing.
pub proof fn law_auth_settles(
    flow: SyncFlow,
    scope: Option<WorkspaceScope>,
    auth: Option<AuthState>,
)
    ensures
        flow_after_auth(flow_after_auth(flow, scope, auth), scope, auth) == flow_after_auth(
            flow,
            scope,
            auth,
        ),
{
}

/// As long as a synced runtime keeps its credentials, and on any local one, no
/// word on who is signed in disturbs a switch.
pub proof fn law_auth_keeps_the_switch(
    flow: SyncFlow,
    scope: Option<WorkspaceScope>,
    auth: Option<AuthState>,
)
    requires
        flow.in_switch(),
        scope == Some(WorkspaceScope::Local) || (scope == Some(WorkspaceScope::Synced) && !(
        auth matches Some(a) && a is SignedOut)),
    ensures
        flow_after_auth(flow, scope, auth) == flow,
{
}

/// A synced runtime that lost its credentials stops whatever is under way, and
/// its menu offers nothing.
pub proof fn law_lost_credentials_stop_all(flow: SyncFlow)
    ensures
        ({
            let after = flow_after_auth(
                flow,
                Some(WorkspaceScope::Synced),
                Some(AuthState::SignedOut),
            );
            &&& after == SyncFlow::SignedOutRestartRequired
            &&& menu_action(Some(WorkspaceScope::Synced), after) is None
        }),
{
}

/// What was put off stays within reach: on a local runtime the menu leads back
/// to all of it, on a synced one to the failed import.
pub proof fn law_postponed_stays_reachable(flow: SyncFlow, scope: WorkspaceScope)
    requires
        flow.can_wait(),
        scope == WorkspaceScope::Local || (scope == WorkspaceScope::Synced && flow is ImportFailed),
    ensures
        menu_action(Some(scope), flow.with_notice(false)) == Some(
            AccountMenuAction::RestartPending,
        ),
        flow.with_notice(false).with_notice(true) == flow.with_notice(true),
        flow.with_notice(false).can_wait(),
{
}

/// An import counts as done only where its summary names no error.
pub proof fn law_partial_import_is_a_failure(s: SyncView, item: serde_json::Value)
    requires
        crate::json::text_field(item, "kind"@) == Some("summary"@),
        crate::json::text_items(item, "errors"@).len() > 0,
    ensures
        s.imported(item).flow == (SyncFlow::ImportFailed { notice_open: true }),
        s.imported(item).error is Some,
{
    reveal_strlit("start");
    reveal_strlit("chat");
    reveal_strlit("summary");
    assert("start"@.len() != "summary"@.len());
    assert("chat"@.len() != "summary"@.len());
}

/// A stream that ends before its summary leaves a failed import, never a
/// running one.
pub proof fn law_ended_import_does_not_run(s: SyncView, why: Seq<char>)
    ensures
        !(s.import_over(why).flow is Importing),
        !s.import_over(why).importing,
        s.flow is ImportDone ==> s.import_over(why).flow == s.flow,
{
}

/// While a runtime is being stopped, no second change of runtime starts.
pub proof fn law_one_change_at_a_time(s: SyncView, import: bool, connected: bool)
    requires
        s.changing,
    ensures
        s.switch_asked(import, connected) == s,
        s.leave_asked(connected) == s,
        wish(s.changing, connected) == WishStep::Busy,
{
}

/// A local runtime that could not be stopped for a switch keeps serving: the
/// switch is left to a restart, which can be put off.
pub proof fn law_failed_switch_can_be_put_off(s: SyncView, why: Seq<char>)
    ensures
        s.switch_stopped(Err(why)).flow.can_wait(),
        s.switch_stopped(Err(why)).error == Some(why),
        !s.switch_stopped(Err(why)).changing,
{
}

} // verus!
