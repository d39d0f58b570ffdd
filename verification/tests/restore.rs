use tmux_backup::archive::Metadata;
use tmux_backup::client::Client;
use tmux_backup::error::Error;
use tmux_backup::ids::{PaneId, SessionId, WindowId};
use tmux_backup::pane::Pane;
use tmux_backup::restore::{
    focus_switches, gather, pane_command, pane_content_filename, select_sessions, window_plans,
    Command, Pair, Reply, SessionRestore, Stage, WindowPlan, PLACEHOLDER_SESSION_NAME,
};
use tmux_backup::server::{check_empty_process_output, check_start_output, default_command};
use tmux_backup::session::Session;
use tmux_backup::window::Window;

#[test]
fn placeholder_session_name_is_bracketed() {
    assert!(PLACEHOLDER_SESSION_NAME.starts_with('['));
    assert!(PLACEHOLDER_SESSION_NAME.ends_with(']'));
}

#[test]
fn placeholder_session_name_is_not_empty() {
    assert!(!PLACEHOLDER_SESSION_NAME.is_empty());
    assert!(PLACEHOLDER_SESSION_NAME.len() > 2);
}

fn make_test_pane(id: &str, command: &str, is_active: bool) -> Pane {
    Pane {
        id: PaneId::from_str(id).unwrap(),
        index: 0,
        is_active,
        title: "test".to_string(),
        dirpath: String::from("/tmp"),
        command: command.to_string(),
    }
}

#[test]
fn pair_can_be_cloned() {
    let pane = make_test_pane("%1", "zsh", true);

    let pair = Pair { source: pane.clone(), target: PaneId::from_str("%2").unwrap() };

    let cloned = pair.clone();
    assert_eq!(cloned.source.id, pair.source.id);
    assert_eq!(cloned.target, pair.target);
}

#[test]
fn pair_is_debug_printable() {
    let pane = make_test_pane("%1", "bash", false);

    let pair = Pair { source: pane, target: PaneId::from_str("%5").unwrap() };

    let debug_str = format!("{:?}", pair);
    assert!(debug_str.contains("Pair"));
}

#[test]
fn pair_preserves_source_pane_properties() {
    let pane = make_test_pane("%42", "nvim", true);

    let pair = Pair { source: pane, target: PaneId::from_str("%99").unwrap() };

    assert_eq!(pair.source.command, "nvim");
    assert!(pair.source.is_active);
    assert_eq!(pair.target.as_str(), "%99");
}

fn session(id: &str, name: &str) -> Session {
    Session { id: SessionId::from_str(id).unwrap(), name: name.to_string(), dirpath: "/".to_string() }
}

fn window(id: &str, is_active: bool, layout: &str, session: &str) -> Window {
    Window {
        id: WindowId::from_str(id).unwrap(),
        index: 0,
        is_active,
        layout: layout.to_string(),
        name: format!("w{id}"),
        sessions: vec![session.to_string()],
    }
}

fn sample() -> Metadata {
    Metadata {
        version: "1.0".to_string(),
        client: Client { session_name: "x".to_string(), last_session_name: "y".to_string() },
        sessions: vec![session("$1", "a"), session("$2", "b")],
        windows: vec![
            window("@1", false, "64ef,334x85,0,0,10", "a"),
            window("@2", true, "41e9,279x71,0,0[279x40,0,0,71,279x30,0,41{147x30,0,41,72,131x30,148,41,73}]", "b"),
            window("@3", false, "64f0,334x85,0,0,11", "b"),
        ],
        panes: vec![
            make_test_pane("%10", "zsh", true),
            make_test_pane("%73", "vim", false),
            make_test_pane("%11", "zsh", true),
            make_test_pane("%71", "top", false),
            make_test_pane("%72", "man", true),
        ],
    }
}

fn pane_id(text: &str) -> PaneId {
    PaneId(text.to_string())
}

fn window_id(text: &str) -> WindowId {
    WindowId(text.to_string())
}

#[test]
fn skips_the_sessions_that_exist() {
    let metadata = sample();
    let existing = vec!["a".to_string(), "other".to_string()];

    let selection = select_sessions(&metadata.sessions, &existing);

    assert_eq!(selection.to_create, vec![&metadata.sessions[1]]);
    assert_eq!(selection.skipped, vec![&metadata.sessions[0]]);

    let selection = select_sessions(&metadata.sessions, &vec![]);
    assert_eq!(selection.to_create, vec![&metadata.sessions[0], &metadata.sessions[1]]);
    assert!(selection.skipped.is_empty());
}

#[test]
fn windows_and_panes_in_creation_order() {
    let metadata = sample();
    let plans = window_plans(&metadata, &metadata.sessions[1]).unwrap();

    assert_eq!(plans.len(), 2);
    assert_eq!(plans[0].window, &metadata.windows[1]);
    assert_eq!(plans[0].panes, vec![&metadata.panes[3], &metadata.panes[4], &metadata.panes[1]]);
    assert_eq!(plans[1].window, &metadata.windows[2]);
    assert_eq!(plans[1].panes, vec![&metadata.panes[2]]);
}

#[test]
fn window_plans_fail_on_unknown_pane() {
    let mut metadata = sample();
    metadata.panes.remove(4);
    let result = window_plans(&metadata, &metadata.sessions[1]);
    assert_eq!(result.err(), Some(Error::UnknownPane("%72".to_string())));
}

#[test]
fn restores_a_session_step_by_step() {
    let metadata = sample();
    let session = &metadata.sessions[1];
    let plans = window_plans(&metadata, session).unwrap();
    let mut restore = SessionRestore::new(session, plans).unwrap();

    assert_eq!(
        restore.command(),
        Some(Command::NewSession {
            session,
            window: &metadata.windows[1],
            pane: &metadata.panes[3]
        })
    );
    restore.record(Reply::session_created("$7:@20:%30").unwrap()).unwrap();

    assert_eq!(
        restore.command(),
        Some(Command::SplitWindow { target: window_id("@20"), pane: &metadata.panes[4] })
    );
    restore.record(Reply::pane_created("%31").unwrap()).unwrap();

    assert_eq!(
        restore.command(),
        Some(Command::SplitWindow { target: window_id("@20"), pane: &metadata.panes[1] })
    );
    restore.record(Reply::pane_created("%32").unwrap()).unwrap();

    assert_eq!(
        restore.command(),
        Some(Command::SetLayout { window: &metadata.windows[1], target: window_id("@20") })
    );
    restore.record(Reply::Silent).unwrap();

    assert_eq!(restore.command(), Some(Command::SelectWindow { target: window_id("@20") }));
    restore.record(Reply::Silent).unwrap();

    assert_eq!(
        restore.command(),
        Some(Command::NewWindow {
            session,
            session_id: SessionId("$7".to_string()),
            window: &metadata.windows[2],
            pane: &metadata.panes[2]
        })
    );
    restore.record(Reply::window_created("@21:%33").unwrap()).unwrap();

    assert_eq!(
        restore.command(),
        Some(Command::SetLayout { window: &metadata.windows[2], target: window_id("@21") })
    );
    restore.record(Reply::Silent).unwrap();

    // Four panes, four pairs, in the order of creation.
    assert_eq!(restore.pairs.len(), 4);
    let sources: Vec<&Pane> = restore.pairs.iter().map(|pair| &pair.source).collect();
    assert_eq!(
        sources,
        vec![&metadata.panes[3], &metadata.panes[4], &metadata.panes[1], &metadata.panes[2]]
    );
    assert_eq!(restore.active_targets(), vec![pane_id("%31"), pane_id("%33")]);

    assert_eq!(restore.command(), Some(Command::SelectPane { target: pane_id("%31") }));
    restore.record(Reply::Silent).unwrap();
    assert_eq!(restore.command(), Some(Command::SelectPane { target: pane_id("%33") }));
    restore.record(Reply::Silent).unwrap();

    assert_eq!(restore.stage, Stage::Finished);
    assert_eq!(restore.command(), None);
    assert_eq!(restore.new_windows, vec![window_id("@20"), window_id("@21")]);
    assert_eq!(restore.record(Reply::Silent), Err(Error::UnexpectedReply { intent: "finished" }));
}

#[test]
fn restore_without_active_pane_selects_none() {
    let session = session("$1", "s");
    let window = window("@1", false, "64ef,334x85,0,0,10", "s");
    let pane = make_test_pane("%10", "zsh", false);
    let plans = vec![WindowPlan { window: &window, panes: vec![&pane] }];
    let mut restore = SessionRestore::new(&session, plans).unwrap();

    restore.record(Reply::session_created("$2:@3:%4").unwrap()).unwrap();
    restore.record(Reply::Silent).unwrap();

    assert_eq!(restore.stage, Stage::Finished);
    assert_eq!(restore.pairs, vec![Pair { source: pane.clone(), target: pane_id("%4") }]);
    assert!(restore.active_targets().is_empty());
}

#[test]
fn unexpected_reply_changes_nothing() {
    let session = session("$1", "s");
    let window = window("@1", false, "64ef,334x85,0,0,10", "s");
    let pane = make_test_pane("%10", "zsh", false);
    let plans = vec![WindowPlan { window: &window, panes: vec![&pane] }];
    let mut restore = SessionRestore::new(&session, plans).unwrap();

    assert_eq!(restore.intent(), "new-session");
    assert_eq!(
        restore.record(Reply::Silent),
        Err(Error::UnexpectedReply { intent: "new-session" })
    );
    assert_eq!(
        restore.record(Reply::pane_created("%4").unwrap()),
        Err(Error::UnexpectedReply { intent: "new-session" })
    );
    assert_eq!(
        restore.record(Reply::window_created("@3:%4").unwrap()),
        Err(Error::UnexpectedReply { intent: "new-session" })
    );
    assert_eq!(restore.stage, Stage::Create { window: 0, pane: 0 });
    assert!(restore.pairs.is_empty());

    restore.record(Reply::session_created("$2:@3:%4").unwrap()).unwrap();
    assert_eq!(
        restore.record(Reply::pane_created("%5").unwrap()),
        Err(Error::UnexpectedReply { intent: "select-layout" })
    );
    assert_eq!(restore.stage, Stage::Layout { window: 0 });
}

#[test]
fn session_without_windows_or_window_without_panes() {
    let session = session("$1", "s");
    let window = window("@1", false, "64ef,334x85,0,0,10", "s");
    assert_eq!(
        SessionRestore::new(&session, vec![]).err(),
        Some(Error::EmptyTopology("s".to_string()))
    );
    let plans = vec![WindowPlan { window: &window, panes: vec![] }];
    assert_eq!(
        SessionRestore::new(&session, plans).err(),
        Some(Error::EmptyTopology("w@1".to_string()))
    );
}

#[test]
fn replies_of_tmux() {
    assert_eq!(
        Reply::session_created("$1:@2:%3"),
        Ok(Reply::SessionCreated {
            session: SessionId("$1".to_string()),
            window: window_id("@2"),
            pane: pane_id("%3")
        })
    );
    assert_eq!(
        Reply::window_created("@22:%33"),
        Ok(Reply::WindowCreated { window: window_id("@22"), pane: pane_id("%33") })
    );
    assert_eq!(Reply::pane_created("%3"), Ok(Reply::PaneCreated { pane: pane_id("%3") }));
    assert!(Reply::session_created("$1:@2").is_err());
    assert!(Reply::session_created("$1:@2:%3\n").is_err());
    assert!(Reply::window_created("$1:@2:%3").is_err());
    assert!(Reply::pane_created("3").is_err());
    assert_eq!(Reply::silent("", "", "select-pane"), Ok(Reply::Silent));
    assert_eq!(
        Reply::silent("oops", "", "select-pane"),
        Err(Error::UnexpectedTmuxOutput {
            intent: "select-pane",
            stdout: "oops".to_string(),
            stderr: String::new()
        })
    );
    assert!(check_empty_process_output("", "warning", "select-layout").is_err());
    assert!(check_empty_process_output("", "", "select-layout").is_ok());
}

#[test]
fn focus_ends_on_the_current_session() {
    let client = Client { session_name: "x".to_string(), last_session_name: "y".to_string() };
    let switches = focus_switches(&client);
    assert_eq!(switches, vec!["y", "x"]);
    assert_eq!(switches.last(), Some(&"x"));
}

#[test]
fn first_failure_is_reported() {
    assert_eq!(gather::<Error>(vec![]), Ok(()));
    assert_eq!(gather::<Error>(vec![Ok(()), Ok(())]), Ok(()));
    let outcomes = vec![
        Ok(()),
        Err(Error::TmuxConfig("first")),
        Ok(()),
        Err(Error::TmuxConfig("second")),
    ];
    assert_eq!(gather(outcomes), Err(Error::TmuxConfig("first")));
}

#[test]
fn commands_of_a_pane() {
    assert_eq!(pane_content_filename(&pane_id("%12")), "pane-%12.txt");
    assert_eq!(
        pane_command("/tmp/x/pane-%12.txt", "/bin/zsh"),
        "cat /tmp/x/pane-%12.txt ; exec /bin/zsh"
    );
}

#[test]
fn default_command_of_the_server() {
    assert_eq!(default_command(Some("/bin/zsh"), None), Ok("/bin/zsh".to_string()));
    assert_eq!(default_command(Some("/bin/bash"), None), Ok("-l /bin/bash".to_string()));
    assert_eq!(default_command(Some("/bin/bash"), Some("fish")), Ok("fish".to_string()));
    assert_eq!(default_command(None, Some("fish")), Err(Error::TmuxConfig("no default-shell")));
    assert_eq!(default_command(Some("sh"), None), Ok("sh".to_string()));
}

#[test]
fn output_of_starting_the_server() {
    assert_eq!(check_start_output(""), Ok(()));
    assert_eq!(check_start_output("duplicate session: [placeholder]"), Ok(()));
    assert_eq!(
        check_start_output("no server"),
        Err(Error::UnexpectedTmuxOutput {
            intent: "new-session",
            stdout: "no server".to_string(),
            stderr: String::new()
        })
    );
}
