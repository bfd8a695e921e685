use zeron_ui::account::{
    account_menu_action, import_summary_outcome, local_work_phrase, outcome_of_summary,
    stop_outcome, stop_step, stop_timeout_message, sync_flow_after_auth, AccountMenuAction,
    AuthState, QuitStep, StopStep, SyncFlow, SyncState, WishStep, WorkspaceScope,
};
use zeron_ui::dialogs::{
    account_menu_rows, entry_card, memberships, menu_label, org_gate_blurb, org_gate_labels, signed_out_card,
    sync_overlay, user_initial, CardAction, CreateStep, Memberships, OrgGate, OrgList, OrgRow, SyncOverlay,
};

const LOCAL: Option<WorkspaceScope> = Some(WorkspaceScope::Local);
const SYNCED: Option<WorkspaceScope> = Some(WorkspaceScope::Synced);
const DEV: Option<WorkspaceScope> = Some(WorkspaceScope::Development);

fn signed_in() -> AuthState {
    AuthState::SignedIn { email: "a@b.c".into() }
}

fn needs_org() -> AuthState {
    AuthState::NeedsOrganization { email: "a@b.c".into() }
}

fn state(flow: SyncFlow) -> SyncState {
    let mut s = SyncState::new();
    s.flow = flow;
    s
}

fn all_flows() -> Vec<SyncFlow> {
    vec![
        SyncFlow::Idle,
        SyncFlow::Enabling,
        SyncFlow::Canceling,
        SyncFlow::SwitchOffer { notice_open: true },
        SyncFlow::Switching { import: true },
        SyncFlow::Importing { done: 1, total: 2 },
        SyncFlow::ImportDone { imported: 1, skipped: 0 },
        SyncFlow::ImportFailed { notice_open: true },
        SyncFlow::RestartPending { notice_open: false },
        SyncFlow::SignOutConfirm,
        SyncFlow::SigningOut,
        SyncFlow::SignedOutRestartRequired,
    ]
}

#[test]
fn the_switch_lifecycle_is_four_flows() {
    let inside: Vec<SyncFlow> =
        all_flows().into_iter().filter(|f| f.is_switch_lifecycle()).collect();
    assert_eq!(
        inside,
        [
            SyncFlow::Switching { import: true },
            SyncFlow::Importing { done: 1, total: 2 },
            SyncFlow::ImportDone { imported: 1, skipped: 0 },
            SyncFlow::ImportFailed { notice_open: true },
        ]
    );
}

#[test]
fn the_account_menu_offers_one_thing() {
    assert_eq!(account_menu_action(LOCAL, SyncFlow::Idle), Some(AccountMenuAction::EnableSync));
    assert_eq!(
        account_menu_action(LOCAL, SyncFlow::RestartPending { notice_open: false }),
        Some(AccountMenuAction::RestartPending)
    );
    assert_eq!(
        account_menu_action(LOCAL, SyncFlow::Enabling),
        Some(AccountMenuAction::SyncInProgress)
    );
    assert_eq!(account_menu_action(LOCAL, SyncFlow::SigningOut), None);
    assert_eq!(account_menu_action(SYNCED, SyncFlow::Idle), Some(AccountMenuAction::SignOut));
    assert_eq!(
        account_menu_action(SYNCED, SyncFlow::Importing { done: 0, total: 1 }),
        Some(AccountMenuAction::SyncInProgress)
    );
    assert_eq!(
        account_menu_action(SYNCED, SyncFlow::ImportFailed { notice_open: false }),
        Some(AccountMenuAction::RestartPending)
    );
    assert_eq!(account_menu_action(SYNCED, SyncFlow::SignedOutRestartRequired), None);
    assert_eq!(account_menu_action(DEV, SyncFlow::Idle), None);
    assert_eq!(account_menu_action(None, SyncFlow::Idle), None);
    assert_eq!(menu_label(AccountMenuAction::EnableSync), "Enable sync");
    assert_eq!(menu_label(AccountMenuAction::SignOut), "Sign out");
}

#[test]
fn a_local_sign_in_offers_the_switch() {
    let after = sync_flow_after_auth(SyncFlow::Enabling, LOCAL, Some(&signed_in()));
    assert_eq!(after, SyncFlow::SwitchOffer { notice_open: true });
    // A notice put away stays away.
    let put_away = SyncFlow::SwitchOffer { notice_open: false };
    assert_eq!(sync_flow_after_auth(put_away, LOCAL, Some(&signed_in())), put_away);
    // Credentials that go take the offer with them.
    assert_eq!(
        sync_flow_after_auth(put_away, LOCAL, Some(&AuthState::SignedOut)),
        SyncFlow::Idle
    );
    // An organization still to pick changes nothing.
    assert_eq!(
        sync_flow_after_auth(SyncFlow::Enabling, LOCAL, Some(&needs_org())),
        SyncFlow::Enabling
    );
    // A cancel under way is not overtaken.
    assert_eq!(
        sync_flow_after_auth(SyncFlow::Canceling, LOCAL, Some(&signed_in())),
        SyncFlow::Canceling
    );
}

#[test]
fn auth_never_moves_a_switch_and_settles_at_once() {
    for auth in [None, Some(AuthState::SignedOut), Some(needs_org()), Some(signed_in())] {
        for scope in [None, LOCAL, SYNCED, DEV] {
            for flow in all_flows() {
                let once = sync_flow_after_auth(flow, scope, auth.as_ref());
                let twice = sync_flow_after_auth(once, scope, auth.as_ref());
                assert_eq!(once, twice);
                if scope == LOCAL && flow.is_switch_lifecycle() {
                    assert_eq!(once, flow);
                }
            }
        }
    }
}

#[test]
fn lost_credentials_stop_every_synced_flow() {
    for flow in all_flows() {
        assert_eq!(
            sync_flow_after_auth(flow, SYNCED, Some(&AuthState::SignedOut)),
            SyncFlow::SignedOutRestartRequired
        );
    }
}

#[test]
fn local_work_is_counted_in_words() {
    assert_eq!(local_work_phrase(0, 0), None);
    assert_eq!(local_work_phrase(1, 0).as_deref(), Some("the 1 session"));
    assert_eq!(local_work_phrase(3, 0).as_deref(), Some("the 3 sessions"));
    assert_eq!(local_work_phrase(0, 1).as_deref(), Some("the 1 project"));
    assert_eq!(local_work_phrase(2, 1).as_deref(), Some("the 2 sessions and 1 project"));
}

fn json(text: &str) -> serde_json::Value {
    serde_json::from_str(text).unwrap()
}

#[test]
fn a_summary_with_errors_is_a_failure() {
    let clean = json("{\"importedChats\": 4, \"skippedChats\": 1, \"errors\": []}");
    assert_eq!(import_summary_outcome(&clean), Ok((4, 1)));
    let bare = json("{}");
    assert_eq!(import_summary_outcome(&bare), Ok((0, 0)));
    let one = json("{\"importedChats\": 2, \"errors\": [\"disk full\"]}");
    assert_eq!(
        import_summary_outcome(&one),
        Err("2 imported, 1 failure: disk full".to_string())
    );
    let many = json("{\"importedChats\": 0, \"errors\": [\"a\", 7, \"b\"]}");
    assert_eq!(
        import_summary_outcome(&many),
        Err("0 imported, 2 failures — first: a".to_string())
    );
    assert_eq!(outcome_of_summary(5, 2, &Vec::new()), Ok((5, 2)));
}

#[test]
fn an_engine_is_stopped_once_port_and_data_are_free() {
    assert_eq!(stop_step(true, false, false), StopStep::Stopped);
    assert_eq!(stop_step(true, false, true), StopStep::Stopped);
    assert_eq!(stop_step(true, true, false), StopStep::PollAgain);
    assert_eq!(stop_step(false, false, true), StopStep::TimedOut);
    assert_eq!(
        stop_timeout_message(15),
        "the daemon did not finish stopping within 15 seconds"
    );
    assert_eq!(stop_outcome(Some("no".into()), Ok(())), Ok(()));
    assert_eq!(stop_outcome(None, Err("late".into())), Err("late".to_string()));
    assert_eq!(
        stop_outcome(Some("no".into()), Err("late".into())),
        Err("no; late".to_string())
    );
}

#[test]
fn a_switch_runs_through_to_the_import() {
    let mut s = state(SyncFlow::SwitchOffer { notice_open: true });
    assert_eq!(s.start_synced_switch(true, true), WishStep::Go);
    assert_eq!(s.flow, SyncFlow::Switching { import: true });
    // One change at a time.
    assert_eq!(s.start_synced_switch(false, true), WishStep::Busy);
    assert_eq!(s.flow, SyncFlow::Switching { import: true });
    assert!(!s.drive_sync_switch(true, None, SYNCED, true), "still stopping");
    assert!(s.synced_switch_ended(Ok(())));
    assert!(!s.drive_sync_switch(false, None, None, true), "not up yet");
    assert!(s.drive_sync_switch(true, None, SYNCED, true), "the import starts");
    assert_eq!(s.flow, SyncFlow::Importing { done: 0, total: 0 });
    assert_eq!(s.spawn_local_import(true), WishStep::Busy);
    s.apply_import_event(&json("{\"kind\": \"start\", \"chats\": 2}"));
    assert_eq!(s.flow, SyncFlow::Importing { done: 0, total: 2 });
    s.apply_import_event(&json(
        "{\"kind\": \"chat\", \"index\": 1, \"total\": 2, \"title\": \"First\"}",
    ));
    assert_eq!(s.flow, SyncFlow::Importing { done: 1, total: 2 });
    assert_eq!(s.current.as_deref(), Some("First"));
    s.apply_import_event(&json("{\"kind\": \"other\"}"));
    s.apply_import_event(&json("{}"));
    assert_eq!(s.flow, SyncFlow::Importing { done: 1, total: 2 });
    s.apply_import_event(&json("{\"kind\": \"summary\", \"importedChats\": 2}"));
    assert_eq!(s.flow, SyncFlow::ImportDone { imported: 2, skipped: 0 });
    assert!(s.current.is_none());
    s.import_ended();
    assert_eq!(s.flow, SyncFlow::ImportDone { imported: 2, skipped: 0 });
    assert!(!s.importing);
    s.dismiss();
    assert_eq!(s.flow, SyncFlow::Idle);
}

#[test]
fn a_failed_switch_waits_for_a_restart_and_can_be_put_off() {
    let mut s = state(SyncFlow::SwitchOffer { notice_open: true });
    assert_eq!(s.start_synced_switch(false, true), WishStep::Go);
    assert!(!s.synced_switch_ended(Err("stuck".into())));
    assert_eq!(s.flow, SyncFlow::RestartPending { notice_open: true });
    assert_eq!(s.error.as_deref(), Some("stuck"));
    assert!(s.postpone_sync_restart());
    assert_eq!(s.flow, SyncFlow::RestartPending { notice_open: false });
    assert_eq!(
        account_menu_action(LOCAL, s.flow),
        Some(AccountMenuAction::RestartPending)
    );
    assert!(s.reopen_sync_notice());
    assert_eq!(s.flow, SyncFlow::RestartPending { notice_open: true });
    assert!(!state(SyncFlow::Idle).postpone_sync_restart());
}

#[test]
fn a_runtime_that_did_not_switch_is_left_to_a_restart() {
    let mut s = state(SyncFlow::Switching { import: false });
    assert!(!s.drive_sync_switch(true, None, LOCAL, true));
    assert_eq!(s.flow, SyncFlow::RestartPending { notice_open: true });
    assert_eq!(
        s.error.as_deref(),
        Some("The synced workspace did not come up — restart to finish.")
    );
    let mut s = state(SyncFlow::Switching { import: false });
    assert!(!s.drive_sync_switch(false, Some("boom".into()), None, true));
    assert_eq!(s.error.as_deref(), Some("boom"));
    let mut s = state(SyncFlow::Switching { import: false });
    assert!(!s.drive_sync_switch(true, None, SYNCED, true));
    assert_eq!(s.flow, SyncFlow::Idle);
}

#[test]
fn an_import_without_a_summary_failed() {
    let mut s = state(SyncFlow::Idle);
    assert_eq!(s.spawn_local_import(true), WishStep::Go);
    s.import_ended();
    assert_eq!(s.flow, SyncFlow::ImportFailed { notice_open: true });
    assert_eq!(s.error.as_deref(), Some("The import stream ended before it finished."));
    let mut s = state(SyncFlow::Idle);
    assert_eq!(s.spawn_local_import(true), WishStep::Go);
    s.import_failed("broken".into());
    assert_eq!(s.error.as_deref(), Some("broken"));
    assert!(!s.importing);
    let mut s = state(SyncFlow::Idle);
    s.apply_summary(Err("x".into()));
    assert_eq!(s.flow, SyncFlow::ImportFailed { notice_open: true });
}

#[test]
fn without_an_engine_nothing_starts() {
    let mut s = state(SyncFlow::Idle);
    assert_eq!(s.start_synced_switch(true, false), WishStep::Refused);
    assert_eq!(s.flow, SyncFlow::RestartPending { notice_open: true });
    assert_eq!(s.error.as_deref(), Some("Engine not connected"));
    let mut s = state(SyncFlow::Idle);
    assert_eq!(s.spawn_local_import(false), WishStep::Refused);
    assert_eq!(s.flow, SyncFlow::RestartPending { notice_open: true });
    let mut s = state(SyncFlow::SignOutConfirm);
    assert_eq!(s.start_local_runtime_transition(false), WishStep::Refused);
    assert_eq!(s.flow, SyncFlow::SignedOutRestartRequired);
    let mut s = state(SyncFlow::Idle);
    assert_eq!(s.quit_for_runtime_change(false, true), QuitStep::Refused);
    assert_eq!(s.error.as_deref(), Some("Engine not connected"));
}

#[test]
fn signing_out_leaves_the_synced_runtime() {
    let mut s = SyncState::new();
    assert!(!s.request_sign_out(LOCAL));
    assert_eq!(s.flow, SyncFlow::Idle);
    assert!(s.request_sign_out(SYNCED));
    assert_eq!(s.flow, SyncFlow::SignOutConfirm);
    assert_eq!(s.start_local_runtime_transition(true), WishStep::Go);
    assert_eq!(s.flow, SyncFlow::SigningOut);
    assert_eq!(s.start_local_runtime_transition(true), WishStep::Busy);
    assert!(s.local_runtime_ended(Ok(())));
    assert_eq!(s.flow, SyncFlow::Idle);
    assert_eq!(s.start_local_runtime_transition(true), WishStep::Go);
    assert!(!s.local_runtime_ended(Err("held".into())));
    assert_eq!(s.flow, SyncFlow::SignedOutRestartRequired);
    assert_eq!(s.error.as_deref(), Some("held"));
    s.note_auth(SYNCED, Some(&signed_in()));
    assert_eq!(s.flow, SyncFlow::SignedOutRestartRequired);
}

#[test]
fn quitting_stops_an_engine_of_another_process_first() {
    let mut s = state(SyncFlow::RestartPending { notice_open: true });
    assert_eq!(s.quit_for_runtime_change(true, true), QuitStep::Quit);
    assert_eq!(s.quit_for_runtime_change(true, false), QuitStep::StopEngine);
    assert_eq!(s.quit_for_runtime_change(true, false), QuitStep::Busy);
    assert!(!s.quit_ended(Err("it hangs".into())));
    assert_eq!(
        s.error.as_deref(),
        Some(
            "Could not stop the remote engine: it hangs. Run `zeron daemon stop`, then quit and reopen Zeron."
        )
    );
    assert_eq!(s.quit_for_runtime_change(true, false), QuitStep::StopEngine);
    assert!(s.error.is_none());
    assert!(s.quit_ended(Ok(())));
}

#[test]
fn a_sign_in_starts_and_can_be_called_off() {
    let mut s = SyncState::new();
    assert!(!s.start_sign_in(DEV, true));
    assert_eq!(s.flow, SyncFlow::Idle);
    assert!(s.start_sign_in(SYNCED, true));
    assert_eq!(s.flow, SyncFlow::Idle);
    assert!(!s.start_sign_in(LOCAL, false));
    assert_eq!(s.flow, SyncFlow::Enabling);
    assert_eq!(s.sign_in_failed(LOCAL, "no page"), "Sign in failed: no page");
    assert_eq!(s.flow, SyncFlow::Idle);
    assert!(s.start_sign_in(LOCAL, true));
    assert!(s.cancel_auth_setup(LOCAL, true));
    assert_eq!(s.flow, SyncFlow::Canceling);
    assert!(s.cancel_ended(true, Ok(())).is_none());
    assert_eq!(s.flow, SyncFlow::Idle);
}

// ---- dialogs ----

fn card(s: &SyncState, auth: Option<&AuthState>) -> Option<(String, String, Vec<(String, CardAction)>)> {
    match sync_overlay(s, auth, false, 2, 1) {
        SyncOverlay::Card(c) => Some((
            c.title,
            c.body,
            c.buttons.into_iter().map(|b| (b.label, b.action)).collect(),
        )),
        _ => None,
    }
}

#[test]
fn an_idle_flow_shows_no_dialog() {
    assert!(matches!(
        sync_overlay(&SyncState::new(), Some(&signed_in()), false, 2, 1),
        SyncOverlay::Nothing
    ));
    assert!(matches!(
        sync_overlay(
            &state(SyncFlow::SwitchOffer { notice_open: false }),
            Some(&signed_in()),
            false,
            2,
            1
        ),
        SyncOverlay::Nothing
    ));
}

#[test]
fn an_offer_with_work_can_bring_it_along() {
    let s = state(SyncFlow::SwitchOffer { notice_open: true });
    let (title, body, buttons) = card(&s, Some(&signed_in())).expect("a card");
    assert_eq!(title, "Sync is ready");
    assert_eq!(
        body,
        "You're signed in as a@b.c. Bring the 2 sessions and 1 project from this device into your synced workspace, or start it fresh."
    );
    assert_eq!(
        buttons,
        [
            ("Later".to_string(), CardAction::Postpone),
            ("Start fresh".to_string(), CardAction::SwitchFresh),
            ("Bring my work".to_string(), CardAction::SwitchWithWork),
        ]
    );
}

#[test]
fn an_import_shows_how_far_it_is() {
    let mut s = state(SyncFlow::Importing { done: 3, total: 8 });
    s.current = Some("Title".into());
    let SyncOverlay::Card(c) = sync_overlay(&s, Some(&signed_in()), false, 2, 1) else {
        panic!("expected a card");
    };
    assert_eq!(c.title, "Bringing your work over");
    assert_eq!(c.body, "Importing session 4 of 8");
    assert_eq!(c.progress, Some((3, 8)));
    assert_eq!(c.current.as_deref(), Some("Title"));
}

#[test]
fn a_failed_import_offers_a_retry() {
    let mut s = state(SyncFlow::ImportFailed { notice_open: true });
    s.error = Some("2 imported, 1 failure: disk full".into());
    let SyncOverlay::Card(c) = sync_overlay(&s, Some(&signed_in()), false, 2, 1) else {
        panic!("expected a card");
    };
    assert_eq!(c.error.as_deref(), Some("2 imported, 1 failure: disk full"));
    assert!(c.buttons.iter().any(|b| b.action == CardAction::RetryImport));
    assert!(c.buttons.iter().any(|b| b.action == CardAction::Postpone));
}

#[test]
fn a_lost_account_offers_a_local_start() {
    let mut s = state(SyncFlow::SignedOutRestartRequired);
    s.error = Some("held".into());
    let c = signed_out_card(&s);
    assert_eq!(c.error.as_deref(), Some("held"));
    assert!(c.buttons.iter().any(|b| b.action == CardAction::RetryLocal));
}

#[test]
fn without_an_account_there_is_a_way_in() {
    let c = entry_card(&None);
    assert_eq!(c.title, "Log in to Zeron");
    assert_eq!((c.buttons[0].label.as_str(), c.buttons[0].action), ("Log in", CardAction::SignIn));
    let c = entry_card(&Some("no engine".into()));
    assert_eq!((c.title.as_str(), c.body.as_str()), ("", "no engine"));
    assert_eq!(c.buttons[0].action, CardAction::RetryEngine);
}

#[test]
fn an_initial_is_in_upper_case() {
    assert_eq!(user_initial("zeron"), "Z");
    assert_eq!(user_initial("ärger"), "Ä");
    assert_eq!(user_initial("ßharp"), "SS");
}

#[test]
fn the_menu_lists_its_rows() {
    let rows = account_menu_rows(SYNCED, SyncFlow::Idle);
    assert!(rows.contains(&"Sign out".to_string()), "{rows:?}");
    let rows = account_menu_rows(DEV, SyncFlow::Idle);
    assert!(!rows.contains(&"Sign out".to_string()), "{rows:?}");
}

fn org(id: &str) -> OrgRow {
    OrgRow { organization_id: id.into(), name: "Org".into() }
}

#[test]
fn organizations_load_and_one_is_picked() {
    let mut g = OrgGate::new();
    assert!(matches!(g.orgs, OrgList::Idle));
    assert!(matches!(memberships(&g.orgs), Memberships::Skeleton));
    g.load();
    assert!(matches!(g.orgs, OrgList::Loading));
    assert!(matches!(memberships(&g.orgs), Memberships::Skeleton));
    g.loaded(Err("offline".into()));
    assert!(matches!(&g.orgs, OrgList::Error(e) if e == "offline"));
    assert!(matches!(memberships(&g.orgs), Memberships::Failed(e) if e == "offline"));
    g.load();
    g.loaded(Ok(Vec::new()));
    assert!(matches!(memberships(&g.orgs), Memberships::Nothing));
    g.loaded(Ok(vec![org("o1")]));
    assert!(matches!(memberships(&g.orgs), Memberships::Rows(names) if names == ["Org"]));
    assert!(matches!(&g.orgs, OrgList::Ready(rows) if rows.len() == 1));
    assert!(!g.select(false));
    assert!(g.select(true));
    assert!(g.submitting);
    g.submitted(Err("taken".into()));
    assert!(!g.submitting);
    assert_eq!(g.error.as_deref(), Some("taken"));
}

#[test]
fn an_organization_needs_a_good_name() {
    let mut g = OrgGate::new();
    assert!(matches!(g.create(true, "  x  ", false), CreateStep::BadName));
    assert!(g.error.is_some());
    assert!(matches!(g.create(false, "Acme", true), CreateStep::Nothing));
    let CreateStep::Create(name) = g.create(true, "  Acme  ", true) else {
        panic!("expected a request");
    };
    assert_eq!(name, "Acme");
    assert!(g.submitting);
    assert!(matches!(g.create(true, "Acme", true), CreateStep::Nothing));
    g.submitted(Ok(()));
    assert!(g.error.is_none());
}

#[test]
fn the_organization_page_names_the_account() {
    let plain = "Zeron is organized around workspaces — create one for yourself or your team.";
    assert_eq!(org_gate_blurb(&None), plain);
    assert_eq!(
        org_gate_blurb(&Some("a@b.c".into())),
        format!("{plain} Signed in as a@b.c.")
    );
    assert_eq!(org_gate_labels(true, LOCAL), ("Creating…", "Cancel sync setup"));
    assert_eq!(org_gate_labels(false, SYNCED), ("Create", "Use a different account"));
}
