//! What holds of every way through signing in, switching, importing and signing
//! out.
use vstd::prelude::*;

use crate::account::{
    AccountMenuAction, AuthState, QuitStep, StopStep, SyncFlow, SyncState, SyncView, WishStep,
    WorkspaceScope,
};
use crate::dialogs::{
    CardAction, CardView, CreateStep, OrgGate, OrgList, OrgRow, OverlayView,
};

verus! {

/// Signing in on a local runtime offers the switch, unless it is offered already,
/// the sign-in is being taken back, or a switch is on its way.
pub proof fn law_signing_in_offers_the_switch(flow: SyncFlow, email: String)
    ensures
        ({
            let after = crate::account::flow_after_auth(
                flow,
                Some(WorkspaceScope::Local),
                Some(AuthState::SignedIn { email }),
            );
            match flow {
                SyncFlow::Idle | SyncFlow::Enabling | SyncFlow::SignOutConfirm | SyncFlow::SigningOut | SyncFlow::SignedOutRestartRequired => after
                    == (SyncFlow::SwitchOffer { notice_open: true }),
                _ => after == flow,
            }
        }),
{
}

/// Signing out on a local runtime takes back what was offered, and nothing else
/// changes there; nor does anything while it is not known who is signed in, or a
/// workspace is still to be chosen.
pub proof fn law_signing_out_takes_back_the_offer(flow: SyncFlow, email: String)
    ensures
        ({
            let after = crate::account::flow_after_auth(
                flow,
                Some(WorkspaceScope::Local),
                Some(AuthState::SignedOut),
            );
            match flow {
                SyncFlow::SwitchOffer { .. } | SyncFlow::RestartPending { .. } => after
                    == SyncFlow::Idle,
                _ => after == flow,
            }
        }),
        crate::account::flow_after_auth(flow, Some(WorkspaceScope::Local), None) == flow,
        crate::account::flow_after_auth(
            flow,
            Some(WorkspaceScope::Local),
            Some(AuthState::NeedsOrganization { email }),
        ) == flow,
        crate::account::flow_after_auth(flow, None, Some(AuthState::SignedOut)) == flow,
        crate::account::flow_after_auth(
            flow,
            Some(WorkspaceScope::Development),
            Some(AuthState::SignedOut),
        ) == SyncFlow::Idle,
{
}

/// A synced runtime that keeps its credentials goes on with signing out and with a
/// switch, and has no use for anything else that was under way.
pub proof fn law_a_synced_runtime_drops_the_offer(flow: SyncFlow, email: String)
    ensures
        ({
            let after = crate::account::flow_after_auth(
                flow,
                Some(WorkspaceScope::Synced),
                Some(AuthState::SignedIn { email }),
            );
            match flow {
                SyncFlow::Idle | SyncFlow::Enabling | SyncFlow::Canceling | SyncFlow::SwitchOffer {
                    ..
                } | SyncFlow::RestartPending { .. } => after == SyncFlow::Idle,
                _ => after == flow,
            }
        }),
{
}

/// The account menu offers sync where nothing is under way on a local runtime,
/// leads back to what was put off, offers to sign out on a synced one, and only
/// tells of what cannot be stopped.
pub proof fn law_the_menu_offers_the_next_step(flow: SyncFlow)
    ensures
        crate::account::menu_action(Some(WorkspaceScope::Local), flow) == (match flow {
            SyncFlow::Idle => Some(AccountMenuAction::EnableSync),
            SyncFlow::SwitchOffer { .. } | SyncFlow::RestartPending { .. } | SyncFlow::ImportFailed {
                ..
            } => Some(AccountMenuAction::RestartPending),
            SyncFlow::Enabling | SyncFlow::Canceling | SyncFlow::Switching {
                ..
            } | SyncFlow::Importing { .. } | SyncFlow::ImportDone { .. } => Some(
                AccountMenuAction::SyncInProgress,
            ),
            SyncFlow::SignOutConfirm | SyncFlow::SigningOut | SyncFlow::SignedOutRestartRequired => None,
        }),
        crate::account::menu_action(Some(WorkspaceScope::Synced), flow) == (match flow {
            SyncFlow::ImportFailed { .. } => Some(AccountMenuAction::RestartPending),
            SyncFlow::Switching { .. } | SyncFlow::Importing { .. } | SyncFlow::ImportDone {
                ..
            } => Some(AccountMenuAction::SyncInProgress),
            SyncFlow::SignedOutRestartRequired => None,
            _ => Some(AccountMenuAction::SignOut),
        }),
        crate::account::menu_action(Some(WorkspaceScope::Development), flow) is None,
        crate::account::menu_action(None, flow) is None,
{
}

/// A switch with local work, once the old runtime has stopped and the synced one is
/// up, imports that work; a switch without it is over. Until then nothing changes.
pub proof fn law_a_switch_ends_in_an_import_or_at_rest(
    s: SyncView,
    import: bool,
    failed: Option<Seq<char>>,
)
    requires
        !s.changing,
        !s.importing,
    ensures
        ({
            let asked = s.switch_asked(import, true);
            let stopped = asked.switch_stopped(Ok(()));
            let up = stopped.driven(true, failed, Some(WorkspaceScope::Synced), true);
            &&& asked.flow == (SyncFlow::Switching { import })
            &&& asked.changing
            &&& asked.error is None && asked.current is None
            &&& asked.driven(true, failed, Some(WorkspaceScope::Synced), true) == asked
            &&& stopped.flow == asked.flow && !stopped.changing && stopped.error is None
            &&& stopped.driven(false, None, None, true) == stopped
            &&& stopped.driven(true, failed, None, true) == stopped
            &&& if import {
                up.flow == (SyncFlow::Importing { done: 0, total: 0 }) && up.importing
                    && up.error is None
            } else {
                up.flow == SyncFlow::Idle && !up.importing
            }
        }),
{
}

/// A switch that fails on its way is left to a restart, and tells why: where the old
/// runtime does not stop, where the new one does not come up, where it is no synced
/// one, and where there is no engine.
pub proof fn law_a_failed_switch_tells_why(
    s: SyncView,
    import: bool,
    why: Seq<char>,
    other: WorkspaceScope,
    connected: bool,
)
    requires
        !s.changing,
        other != WorkspaceScope::Synced,
    ensures
        ({
            let pending = SyncFlow::RestartPending { notice_open: true };
            let asked = s.switch_asked(import, true);
            let stopped = asked.switch_stopped(Ok(()));
            &&& asked.switch_stopped(Err(why)).flow == pending
            &&& asked.switch_stopped(Err(why)).error == Some(why)
            &&& !asked.switch_stopped(Err(why)).changing
            &&& stopped.driven(false, Some(why), None, connected).flow == pending
            &&& stopped.driven(false, Some(why), None, connected).error == Some(why)
            &&& stopped.driven(true, None, Some(other), connected).flow == pending
            &&& stopped.driven(true, None, Some(other), connected).error is Some
            &&& s.switch_asked(import, false).flow == pending
            &&& s.switch_asked(import, false).error == Some("Engine not connected"@)
            &&& !s.switch_asked(import, false).changing
            &&& import && !s.importing ==> stopped.driven(
                true,
                None,
                Some(WorkspaceScope::Synced),
                false,
            ).flow == pending
        }),
{
}

/// Only a switch is driven.
pub proof fn law_only_a_switch_is_driven(
    s: SyncView,
    ready: bool,
    failed: Option<Seq<char>>,
    scope: Option<WorkspaceScope>,
    connected: bool,
)
    requires
        !(s.flow is Switching),
    ensures
        s.driven(ready, failed, scope, connected) == s,
{
}

proof fn lemma_kinds()
    ensures
        "start"@ != "chat"@,
        "start"@ != "summary"@,
        "chat"@ != "summary"@,
{
    reveal_strlit("start");
    reveal_strlit("chat");
    reveal_strlit("summary");
    assert("start"@.len() == 5);
    assert("chat"@.len() == 4);
    assert("summary"@.len() == 7);
}

/// The items of an import tell how far it is: how many sessions there are, which one
/// is being copied, and in the end how it went; any other item tells nothing.
pub proof fn law_items_tell_how_far_an_import_is(s: SyncView, item: serde_json::Value)
    ensures
        ({
            let kind = crate::json::text_field(item, "kind"@);
            let after = s.imported(item);
            &&& after.importing == s.importing
            &&& after.changing == s.changing
            &&& kind == Some("start"@) ==> after == (SyncView {
                flow: SyncFlow::Importing {
                    done: 0,
                    total: crate::json::count_field(item, "chats"@) as usize,
                },
                ..s
            })
            &&& kind == Some("chat"@) ==> after == (SyncView {
                flow: SyncFlow::Importing {
                    done: crate::json::count_field(item, "index"@) as usize,
                    total: crate::json::count_field(item, "total"@) as usize,
                },
                current: crate::json::text_field(item, "title"@),
                ..s
            })
            &&& kind == Some("summary"@) && crate::json::text_items(item, "errors"@).len() == 0
                ==> after == (SyncView {
                flow: SyncFlow::ImportDone {
                    imported: crate::json::count_field(item, "importedChats"@) as usize,
                    skipped: crate::json::count_field(item, "skippedChats"@) as usize,
                },
                current: None,
                ..s
            })
            &&& kind == Some("summary"@) && crate::json::text_items(item, "errors"@).len() > 0
                ==> after.flow == (SyncFlow::ImportFailed { notice_open: true })
                && after.error is Some && after.current is None
            &&& kind != Some("start"@) && kind != Some("chat"@) && kind != Some("summary"@)
                ==> after == s
        }),
{
    lemma_kinds();
}

/// What is said of an import with errors begins with how many sessions came over and
/// ends with the first error; it counts the errors.
pub proof fn law_a_failed_import_names_its_first_error(
    imported: u64,
    skipped: u64,
    errors: Seq<Seq<char>>,
)
    ensures
        ({
            let outcome = crate::account::summary_outcome(imported, skipped, errors);
            &&& (outcome is Ok) == (errors.len() == 0)
            &&& outcome is Ok ==> outcome->Ok_0 == (imported as usize, skipped as usize)
            &&& outcome is Err ==> {
                let said = outcome->Err_0;
                let head = crate::text::decimal((imported as usize) as nat) + " imported, "@;
                &&& said.len() >= head.len() + errors[0].len()
                &&& said.take(head.len() as int) == head
                &&& said.skip(said.len() - errors[0].len()) == errors[0]
                &&& said.subrange(head.len() as int, said.len() - errors[0].len()) == (
                if errors.len() == 1 {
                    "1 failure: "@
                } else {
                    crate::text::decimal(errors.len()) + " failures — first: "@
                })
            }
        }),
{
    if errors.len() > 0 {
        let said = crate::account::summary_outcome(imported, skipped, errors)->Err_0;
        let head = crate::text::decimal((imported as usize) as nat) + " imported, "@;
        assert(said.take(head.len() as int) =~= head);
        assert(said.skip(said.len() - errors[0].len()) =~= errors[0]);
        let mid = said.subrange(head.len() as int, said.len() - errors[0].len());
        if errors.len() == 1 {
            assert(mid =~= "1 failure: "@);
        } else {
            assert(mid =~= crate::text::decimal(errors.len()) + " failures — first: "@);
        }
    }
}

/// An import that stops before its summary has failed, for the reason given; one
/// that was summed up stays as it ended.
pub proof fn law_an_import_that_stops_has_failed(s: SyncView, why: Seq<char>)
    ensures
        ({
            let after = s.import_over(why);
            &&& !after.importing
            &&& if s.flow is Importing {
                after.flow == (SyncFlow::ImportFailed { notice_open: true }) && after.error == Some(
                    why,
                )
            } else {
                after.flow == s.flow && after.error == s.error
            }
        }),
        s.importing ==> s.import_asked(true) == s,
        !s.importing ==> s.import_asked(true).flow == (SyncFlow::Importing { done: 0, total: 0 })
            && s.import_asked(true).importing && s.import_asked(true).error is None,
        !s.importing ==> s.import_asked(false).flow == (SyncFlow::RestartPending {
            notice_open: true,
        }) && s.import_asked(false).error == Some("Engine not connected"@),
{
}

/// Leaving a synced runtime ends at rest once it has stopped; where it does not stop,
/// or there is no engine, that is told and can only be tried again.
pub proof fn law_signing_out_ends_at_rest(s: SyncView, why: Seq<char>)
    requires
        !s.changing,
    ensures
        ({
            let asked = s.leave_asked(true);
            &&& asked.flow == SyncFlow::SigningOut && asked.changing && asked.error is None
            &&& asked.left(Ok(())).flow == SyncFlow::Idle
            &&& asked.left(Ok(())).error is None && !asked.left(Ok(())).changing
            &&& asked.left(Err(why)).flow == SyncFlow::SignedOutRestartRequired
            &&& asked.left(Err(why)).error == Some(why) && !asked.left(Err(why)).changing
            &&& s.leave_asked(false).flow == SyncFlow::SignedOutRestartRequired
            &&& s.leave_asked(false).error == Some("Engine not connected"@)
            &&& !s.leave_asked(false).changing
        }),
{
}

/// An engine has stopped exactly where the wait for it succeeded; else what is said
/// ends with why the wait failed, behind what it answered to the request.
pub proof fn law_stopping_is_what_the_wait_saw(
    refused: Option<Seq<char>>,
    waited: Result<(), Seq<char>>,
)
    ensures
        ({
            let r = crate::account::stopped(refused, waited);
            &&& (r is Ok) == (waited is Ok)
            &&& waited is Err && refused is None ==> r->Err_0 == waited->Err_0
            &&& waited is Err && refused is Some ==> r->Err_0 == refused->0 + "; "@ + waited->Err_0
        }),
{
}

/// Local work is named where there is any: sessions, projects, or both, each in the
/// singular for one.
pub proof fn law_local_work_is_named(chats: usize, spaces: usize)
    ensures
        ({
            let one = |n: usize, word: Seq<char>|
                crate::text::decimal(n as nat) + " "@ + word + (if n == 1 {
                    Seq::<char>::empty()
                } else {
                    "s"@
                });
            let said = crate::account::work_phrase(chats, spaces);
            &&& (said is None) == (chats == 0 && spaces == 0)
            &&& chats > 0 && spaces == 0 ==> said == Some("the "@ + one(chats, "session"@))
            &&& chats == 0 && spaces > 0 ==> said == Some("the "@ + one(spaces, "project"@))
            &&& chats > 0 && spaces > 0 ==> said == Some(
                "the "@ + one(chats, "session"@) + " and "@ + one(spaces, "project"@),
            )
        }),
{
    reveal_strlit("");
    assert(""@ =~= Seq::<char>::empty());
}

// ---------------------------------------------------------------------------
// Dialogs
// ---------------------------------------------------------------------------

/// Whether a dialog has a button for an action.
pub open spec fn offers(card: CardView, action: CardAction) -> bool {
    exists|i: int| 0 <= i < card.buttons.len() && (#[trigger] card.buttons[i]).1 == action
}

proof fn lemma_offers(card: CardView, i: int, action: CardAction)
    requires
        0 <= i < card.buttons.len(),
        card.buttons[i].1 == action,
    ensures
        offers(card, action),
{
}

/// The dialog of each step offers the ways on from it: out of signing in, through
/// the offer, back to a failed import, to a restart, and out of signing out. What
/// cannot be stopped has no buttons.
pub proof fn law_dialogs_offer_the_ways_on(
    s: SyncView,
    remote: bool,
    email: Option<Seq<char>>,
    phrase: Option<Seq<char>>,
)
    ensures
        ({
            let card = crate::dialogs::card_of(s, remote, email, phrase);
            match s.flow {
                SyncFlow::Enabling => card matches Some(c) && c.buttons.len() == 2 && offers(
                    c,
                    CardAction::CancelAuth,
                ) && offers(c, CardAction::SignIn),
                SyncFlow::Canceling | SyncFlow::Switching { .. } | SyncFlow::Importing {
                    ..
                } | SyncFlow::SigningOut => card matches Some(c) && c.buttons.len() == 0,
                SyncFlow::SwitchOffer { notice_open: true } => card matches Some(c) && offers(
                    c,
                    CardAction::Postpone,
                ) && offers(c, CardAction::SwitchFresh) && (offers(c, CardAction::SwitchWithWork)
                    <==> phrase is Some) && c.buttons.len() == (if phrase is Some {
                    3int
                } else {
                    2int
                }),
                SyncFlow::ImportDone { .. } => card matches Some(c) && c.buttons.len() == 1
                    && offers(c, CardAction::Dismiss),
                SyncFlow::ImportFailed { notice_open: true } => card matches Some(c)
                    && c.buttons.len() == 2 && offers(c, CardAction::Postpone) && offers(
                    c,
                    CardAction::RetryImport,
                ) && c.error == s.error,
                SyncFlow::RestartPending { notice_open: true } => card matches Some(c)
                    && c.buttons.len() == 2 && offers(c, CardAction::Postpone) && offers(
                    c,
                    CardAction::Quit,
                ) && c.error == s.error,
                SyncFlow::SignOutConfirm => card matches Some(c) && c.buttons.len() == 2 && offers(
                    c,
                    CardAction::Dismiss,
                ) && offers(c, CardAction::ConfirmSignOut),
                _ => card is None,
            }
        }),
{
    if let Some(c) = crate::dialogs::card_of(s, remote, email, phrase) {
        if c.buttons.len() > 0 {
            lemma_offers(c, 0, c.buttons[0].1);
        }
        if c.buttons.len() > 1 {
            lemma_offers(c, 1, c.buttons[1].1);
        }
        if c.buttons.len() > 2 {
            lemma_offers(c, 2, c.buttons[2].1);
        }
    }
}

/// A running import shows how far it is and what is being copied, counting from the
/// first session to the last; no other dialog has a bar.
pub proof fn law_an_import_shows_its_progress(
    s: SyncView,
    remote: bool,
    email: Option<Seq<char>>,
    phrase: Option<Seq<char>>,
)
    ensures
        ({
            let card = crate::dialogs::card_of(s, remote, email, phrase);
            match s.flow {
                SyncFlow::Importing { done, total } => card matches Some(c) && c.progress == Some(
                    (done, total),
                ) && c.current == s.current && c.body == (if total == 0 {
                    "Looking for local sessions…"@
                } else {
                    "Importing session "@ + crate::text::decimal(
                        if done < total {
                            done as nat + 1
                        } else {
                            total as nat
                        },
                    ) + " of "@ + crate::text::decimal(total as nat)
                }),
                _ => card matches Some(c) ==> c.progress is None && c.current is None,
            }
        }),
{
}

/// While a workspace is still to be chosen, signing in shows that choice.
pub proof fn law_signing_in_shows_the_choice_of_a_workspace(
    s: SyncView,
    auth: Option<AuthState>,
    remote: bool,
    chats: usize,
    spaces: usize,
)
    ensures
        (crate::dialogs::overlay_of(s, auth, remote, chats, spaces) is OrgGate) == (s.flow
            == SyncFlow::Enabling && auth is Some && auth->0 is NeedsOrganization),
        s.flow == (SyncFlow::SwitchOffer { notice_open: true }) ==> (
        crate::dialogs::overlay_of(s, auth, remote, chats, spaces) matches OverlayView::Card(c) && (
        offers(
            c,
            CardAction::SwitchWithWork,
        ) <==> chats > 0 || spaces > 0)),
{
    law_dialogs_offer_the_ways_on(
        s,
        remote,
        crate::dialogs::signed_in_email(auth),
        crate::account::work_phrase(chats, spaces),
    );
}

/// The list of workspaces shows each by its name, in order, once there are any; a
/// failure shows why.
pub proof fn law_workspaces_show_by_name(orgs: crate::dialogs::OrgList)
    ensures
        match crate::dialogs::shown_orgs(orgs) {
            crate::dialogs::MembershipsView::Rows(names) => orgs matches crate::dialogs::OrgList::Ready(rows)
                && names.len() == rows@.len() && names.len() > 0 && forall|i: int|
                0 <= i < names.len() ==> #[trigger] names[i] == rows@[i].name@,
            crate::dialogs::MembershipsView::Nothing => orgs matches crate::dialogs::OrgList::Ready(rows)
                && rows@.len() == 0,
            crate::dialogs::MembershipsView::Failed(why) => orgs matches crate::dialogs::OrgList::Error(e)
                && why == e@,
            crate::dialogs::MembershipsView::Skeleton => orgs is Idle || orgs is Loading,
        },
{
}

/// The finished import tells how many sessions came over and how many were there
/// already; the offer tells who is signed in and what there is to bring.
pub proof fn law_dialogs_tell_their_numbers(
    imported: usize,
    skipped: usize,
    email: Seq<char>,
    phrase: Seq<char>,
)
    ensures
        crate::dialogs::done_text(0, 0) == "Your synced workspace is ready."@,
        imported == 1 ==> crate::dialogs::done_text(imported, 0) == crate::text::decimal(1)
            + " session"@ + ""@ + " moved into your synced workspace."@,
        imported > 1 ==> crate::dialogs::done_text(imported, 0) == crate::text::decimal(
            imported as nat,
        ) + " session"@ + "s"@ + " moved into your synced workspace."@,
        skipped > 0 && imported != 1 ==> crate::dialogs::done_text(imported, skipped)
            == crate::text::decimal(imported as nat) + " session"@ + "s"@ + " imported, "@
            + crate::text::decimal(skipped as nat) + " already present."@,
        crate::dialogs::offer_text(Some(email), None) == "You're signed in as "@ + email + ". "@
            + "Zeron can switch to your synced workspace now."@,
        crate::dialogs::offer_text(None, Some(phrase)) == "Bring "@ + phrase
            + " from this device into your synced workspace, or start it fresh."@,
        crate::dialogs::offer_text(Some(email), Some(phrase)) == "You're signed in as "@ + email
            + ". "@ + crate::dialogs::offer_text(None, Some(phrase)),
{
    reveal_strlit(" session");
    reveal_strlit("session");
    reveal_strlit(" ");
    assert(" session"@ =~= " "@ + "session"@);
    let n = crate::text::decimal(imported as nat);
    assert(n + " "@ + "session"@ =~= n + " session"@);
    assert(Seq::<char>::empty() + "Bring "@ =~= "Bring "@);
    let head = "You're signed in as "@ + email + ". "@;
    let tail = " from this device into your synced workspace, or start it fresh."@;
    assert(head + "Bring "@ + phrase + tail =~= head + ("Bring "@ + phrase + tail));
}

/// Without an engine the entry tells why and offers to try again; without an
/// account it offers to log in. A workspace that did not close after signing out
/// offers to try again, and says so while it stops.
pub proof fn law_the_entry_offers_a_way_in(why: Seq<char>, s: SyncView)
    ensures
        ({
            let down = crate::dialogs::entry_card_of(Some(why));
            let out = crate::dialogs::entry_card_of(None);
            let stuck = crate::dialogs::signed_out_view(s);
            &&& down.body == why && down.buttons.len() == 1 && down.buttons[0].1
                == CardAction::RetryEngine
            &&& out.buttons.len() == 1 && out.buttons[0].1 == CardAction::SignIn
            &&& stuck.error == s.error && stuck.buttons.len() == 1 && stuck.buttons[0].1
                == CardAction::RetryLocal
            &&& s.changing ==> stuck.buttons[0].0 == "Stopping engine…"@
            &&& !s.changing ==> stuck.buttons[0].0 == "Retry local mode"@
        }),
        crate::dialogs::quit_label(true, true) == "Stopping engine…"@,
        crate::dialogs::quit_label(true, false) == "Stopping engine…"@,
        crate::dialogs::quit_label(false, true) == "Stop daemon and quit"@,
        crate::dialogs::quit_label(false, false) == "Quit Zeron"@,
{
}

/// The account menu ends with the settings, behind the one action that there is.
pub proof fn law_the_menu_ends_with_the_settings(action: Option<AccountMenuAction>)
    ensures
        ({
            let rows = crate::dialogs::menu_rows_of(action);
            &&& rows.last() == "Settings"@
            &&& action is None ==> rows.len() == 1
            &&& action is Some ==> rows.len() == 2
            &&& action == Some(AccountMenuAction::EnableSync) ==> rows[0] == "Enable sync"@
            &&& action == Some(AccountMenuAction::SyncInProgress) ==> rows[0]
                == "Sync setup in progress"@
            &&& action == Some(AccountMenuAction::RestartPending) ==> rows[0]
                == "Finish sync setup"@
            &&& action == Some(AccountMenuAction::SignOut) ==> rows[0] == "Sign out"@
        }),
{
}

// ---------------------------------------------------------------------------
// Steps
// ---------------------------------------------------------------------------

/// Signing in asks the engine where there is one and accounts are in use; on a
/// local runtime it is then under way. Where it fails that is told, and a local
/// runtime is at rest again.
pub proof fn law_signing_in_is_under_way_until_it_fails(
    scope: Option<WorkspaceScope>,
    connected: bool,
    asks: bool,
    why: &str,
    notice: String,
)
    ensures
        forall|s: &mut SyncState| #[trigger]
            call_ensures(SyncState::start_sign_in, (s, scope, connected), asks) ==> {
                &&& asks <==> connected && scope != Some(WorkspaceScope::Development)
                &&& scope == Some(WorkspaceScope::Local) ==> final(s)@.flow == SyncFlow::Enabling
                &&& scope != Some(WorkspaceScope::Local) ==> final(s)@.flow == (*s)@.flow
                &&& final(s)@.error == (*s)@.error && final(s)@.changing == (*s)@.changing
            },
        forall|s: &mut SyncState| #[trigger]
            call_ensures(SyncState::sign_in_failed, (s, scope, why), notice) ==> {
                &&& notice@ == "Sign in failed: "@ + why@
                &&& scope == Some(WorkspaceScope::Local) && (*s)@.flow == SyncFlow::Enabling
                    ==> final(s)@.flow == SyncFlow::Idle
                &&& (*s)@.flow != SyncFlow::Enabling ==> final(s)@.flow == (*s)@.flow
            },
{
}

/// Giving up a sign-in waits for the engine on a local runtime, and then is at
/// rest; where that fails the sign-in is under way again, and that is told.
pub proof fn law_giving_up_a_sign_in_comes_to_rest(
    scope: Option<WorkspaceScope>,
    connected: bool,
    asks: bool,
    local: bool,
    result: Result<(), String>,
    notice: Option<String>,
)
    ensures
        forall|s: &mut SyncState| #[trigger]
            call_ensures(SyncState::cancel_auth_setup, (s, scope, connected), asks) ==> {
                &&& asks == connected
                &&& connected && scope == Some(WorkspaceScope::Local) ==> final(s)@.flow
                    == SyncFlow::Canceling
                &&& !connected || scope != Some(WorkspaceScope::Local) ==> final(s)@ == (*s)@
            },
        forall|s: &mut SyncState| #[trigger]
            call_ensures(SyncState::cancel_ended, (s, local, result), notice) ==> {
                &&& result is Ok <==> notice is None
                &&& result matches Err(why) ==> (notice matches Some(n) && n@
                    == "Could not cancel sign-in: "@ + why@)
                &&& local && result is Ok ==> final(s)@.flow == SyncFlow::Idle
                &&& local && result is Err ==> final(s)@.flow == SyncFlow::Enabling
                &&& !local ==> final(s)@ == (*s)@
            },
{
}

/// Only a synced runtime is signed out of, and only after it was asked; a dialog
/// that is dismissed leaves the flow at rest.
pub proof fn law_signing_out_is_asked_first(scope: Option<WorkspaceScope>, asked: bool)
    ensures
        forall|s: &mut SyncState| #[trigger]
            call_ensures(SyncState::request_sign_out, (s, scope), asked) ==> {
                &&& asked <==> scope == Some(WorkspaceScope::Synced)
                &&& asked ==> final(s)@.flow == SyncFlow::SignOutConfirm
                &&& !asked ==> final(s)@ == (*s)@
            },
        forall|s: &mut SyncState| #[trigger]
            call_ensures(SyncState::dismiss, (s,), ()) ==> final(s)@.flow == SyncFlow::Idle
                && final(s)@.error == (*s)@.error && final(s)@.importing == (*s)@.importing,
{
}

/// Quitting for a restart stops an engine of another process first, once at a
/// time, and needs none stopped in its own; without one, or where it does not
/// stop, that is told.
pub proof fn law_an_outside_engine_stops_before_quitting(
    connected: bool,
    in_process: bool,
    step: QuitStep,
    result: Result<(), String>,
    quits: bool,
)
    ensures
        forall|s: &mut SyncState| #[trigger]
            call_ensures(SyncState::quit_for_runtime_change, (s, connected, in_process), step)
                ==> {
                &&& step == QuitStep::Refused <==> !connected
                &&& step == QuitStep::Quit <==> connected && in_process
                &&& step == QuitStep::Busy <==> connected && !in_process && (*s)@.changing
                &&& step == QuitStep::StopEngine <==> connected && !in_process && !(*s)@.changing
                &&& step == QuitStep::Refused ==> final(s)@.error == Some("Engine not connected"@)
                &&& step == QuitStep::StopEngine ==> final(s)@.changing && final(s)@.error is None
                &&& final(s)@.flow == (*s)@.flow
            },
        forall|s: &mut SyncState| #[trigger]
            call_ensures(SyncState::quit_ended, (s, result), quits) ==> {
                &&& quits <==> result is Ok
                &&& !final(s)@.changing
                &&& result matches Err(why) ==> final(s)@.error == Some(
                    "Could not stop the remote engine: "@ + why@
                        + ". Run `zeron daemon stop`, then quit and reopen Zeron."@,
                )
                &&& result is Ok ==> final(s)@.error == (*s)@.error
                &&& final(s)@.flow == (*s)@.flow
            },
{
}

/// A wish goes ahead where nothing like it is under way and there is an engine; it is
/// refused without one, and passed over while it is under way.
pub proof fn law_a_wish_goes_ahead_once(import: bool, connected: bool, step: WishStep)
    ensures
        forall|s: &mut SyncState| #[trigger]
            call_ensures(SyncState::start_synced_switch, (s, import, connected), step) ==> {
                &&& step == WishStep::Busy <==> (*s)@.changing
                &&& step == WishStep::Go <==> !(*s)@.changing && connected
                &&& step == WishStep::Refused <==> !(*s)@.changing && !connected
                &&& step == WishStep::Go ==> final(s)@.changing && final(s)@.flow
                    == (SyncFlow::Switching { import })
                &&& step == WishStep::Busy ==> final(s)@ == (*s)@
            },
        forall|s: &mut SyncState| #[trigger]
            call_ensures(SyncState::start_local_runtime_transition, (s, connected), step) ==> {
                &&& step == WishStep::Busy <==> (*s)@.changing
                &&& step == WishStep::Go <==> !(*s)@.changing && connected
                &&& step == WishStep::Go ==> final(s)@.changing && final(s)@.flow
                    == SyncFlow::SigningOut
                &&& step == WishStep::Busy ==> final(s)@ == (*s)@
            },
        forall|s: &mut SyncState| #[trigger]
            call_ensures(SyncState::spawn_local_import, (s, connected), step) ==> {
                &&& step == WishStep::Busy <==> (*s)@.importing
                &&& step == WishStep::Go <==> !(*s)@.importing && connected
                &&& step == WishStep::Go ==> final(s)@.importing
                &&& step == WishStep::Busy ==> final(s)@ == (*s)@
            },
{
}

/// A runtime that was left or stopped is followed by the next one exactly where that
/// worked; else why it did not is told.
pub proof fn law_the_next_runtime_starts_once_the_last_stopped(
    result: Result<(), String>,
    goes: bool,
)
    ensures
        forall|s: &mut SyncState| #[trigger]
            call_ensures(SyncState::local_runtime_ended, (s, result), goes) ==> {
                &&& goes <==> result is Ok
                &&& !final(s)@.changing
                &&& result matches Err(why) ==> final(s)@.error == Some(why@)
            },
        forall|s: &mut SyncState| #[trigger]
            call_ensures(SyncState::synced_switch_ended, (s, result), goes) ==> {
                &&& goes <==> result is Ok
                &&& !final(s)@.changing
                &&& result is Ok ==> final(s)@.flow == (*s)@.flow
                &&& result matches Err(why) ==> final(s)@.error == Some(why@)
            },
        forall|s: &mut SyncState| #[trigger]
            call_ensures(SyncState::import_ended, (s,), ()) ==> {
                &&& !final(s)@.importing && final(s)@.current is None
                &&& (*s)@.flow is Importing ==> final(s)@.flow == (SyncFlow::ImportFailed {
                    notice_open: true,
                }) && final(s)@.error == Some("The import stream ended before it finished."@)
                &&& !((*s)@.flow is Importing) ==> final(s)@.flow == (*s)@.flow
            },
{
}

/// A notice that is put away can be opened again, as long as the flow waits; the
/// flow is the same meanwhile.
pub proof fn law_a_notice_can_be_opened_again(flow: SyncFlow)
    ensures
        flow.can_wait() <==> flow is RestartPending || flow is SwitchOffer || flow is ImportFailed,
        flow.with_notice(false).with_notice(true) == flow.with_notice(true),
        !flow.can_wait() ==> flow.with_notice(true) == flow && flow.with_notice(false) == flow,
        flow is RestartPending ==> flow.with_notice(true) == (SyncFlow::RestartPending {
            notice_open: true,
        }) && flow.with_notice(false) == (SyncFlow::RestartPending { notice_open: false }),
        flow is SwitchOffer ==> flow.with_notice(true) == (SyncFlow::SwitchOffer {
            notice_open: true,
        }) && flow.with_notice(false) == (SyncFlow::SwitchOffer { notice_open: false }),
        flow is ImportFailed ==> flow.with_notice(true) == (SyncFlow::ImportFailed {
            notice_open: true,
        }) && flow.with_notice(false) == (SyncFlow::ImportFailed { notice_open: false }),
        forall|s: &mut SyncState, r: bool| #[trigger]
            call_ensures(SyncState::postpone_sync_restart, (s,), r) ==> final(s)@.flow
                == (*s)@.flow.with_notice(false) && r == (*s)@.flow.can_wait(),
        forall|s: &mut SyncState, r: bool| #[trigger]
            call_ensures(SyncState::reopen_sync_notice, (s,), r) ==> final(s)@.flow
                == (*s)@.flow.with_notice(true) && r == (*s)@.flow.can_wait(),
{
}

/// A workspace is asked for once at a time, by a name that does, without the space
/// around it; a refusal is shown and can be followed by another try.
pub proof fn law_a_workspace_is_asked_for_by_its_name(
    connected: bool,
    text: &str,
    valid: bool,
    step: CreateStep,
    result: Result<(), String>,
    sent: bool,
)
    ensures
        forall|g: &mut OrgGate| #[trigger]
            call_ensures(OrgGate::create, (g, connected, text, valid), step) ==> {
                let free = connected && !(*g).submitting;
                &&& step is Nothing <==> !free
                &&& step is BadName <==> free && !valid
                &&& step is Create <==> free && valid
                &&& step matches CreateStep::Create(name) ==> name@ == crate::text::trim(text@)
                    && final(g).submitting && final(g).error is None
                &&& step is BadName ==> (final(g).error matches Some(e) && e@
                    == "Enter a workspace name"@) && !final(g).submitting
                &&& final(g).orgs == (*g).orgs
            },
        forall|g: &mut OrgGate| #[trigger]
            call_ensures(OrgGate::select, (g, connected), sent) ==> {
                &&& sent == connected
                &&& connected ==> final(g).submitting && final(g).error is None
                &&& !connected ==> *final(g) == *g
            },
        forall|g: &mut OrgGate| #[trigger]
            call_ensures(OrgGate::submitted, (g, result), ()) ==> {
                &&& !final(g).submitting
                &&& result matches Err(why) ==> final(g).error == Some(why)
                &&& result is Ok ==> final(g).error == (*g).error
                &&& final(g).orgs == (*g).orgs
            },
{
}

/// The workspaces load, and then are there or tell why not.
pub proof fn law_workspaces_load(result: Result<Vec<OrgRow>, String>)
    ensures
        forall|g: &mut OrgGate| #[trigger]
            call_ensures(OrgGate::load, (g,), ()) ==> final(g).orgs is Loading
                && final(g).submitting == (*g).submitting,
        forall|g: &mut OrgGate| #[trigger]
            call_ensures(OrgGate::loaded, (g, result), ()) ==> {
                &&& result matches Ok(rows) ==> final(g).orgs == OrgList::Ready(rows)
                &&& result matches Err(why) ==> final(g).orgs == OrgList::Error(why)
                &&& final(g).submitting == (*g).submitting
            },
{
}

/// An engine that is stopping is waited for until it has let go of its port and
/// its data, or its time is up.
pub proof fn law_stopping_waits_for_port_and_data(
    closed: bool,
    held: bool,
    late: bool,
    step: StopStep,
)
    requires
        call_ensures(crate::account::stop_step, (closed, held, late), step),
    ensures
        step == StopStep::Stopped <==> closed && !held,
        step == StopStep::TimedOut <==> late && !(closed && !held),
{
}

} // verus!
