use regex::Regex;
use tmux_backup::archive::{
    backup_filepath_pattern, check_metadata, check_version, Metadata, Overview, Report,
    FORMAT_VERSION, METADATA_FILENAME, PANES_DIR_NAME, VERSION_FILENAME,
};
use tmux_backup::client::Client;
use tmux_backup::error::Error;
use tmux_backup::ids::{PaneId, SessionId, WindowId};
use tmux_backup::pane::Pane;
use tmux_backup::session::Session;
use tmux_backup::window::Window;

fn matches(path: &str) -> bool {
    let pattern = backup_filepath_pattern();
    Regex::new(pattern).unwrap().is_match(path)
}

fn extract_timestamp(path: &str) -> Option<String> {
    let pattern = backup_filepath_pattern();
    let re = Regex::new(pattern).unwrap();
    re.captures(path).map(|c| c[1].to_string())
}

#[test]
fn matches_standard_backup_filename() {
    assert!(matches("backup-20220910T172024.141993.tar.zst"));
}

#[test]
fn matches_with_absolute_path() {
    assert!(matches("/home/user/.local/state/tmux-backup/backup-20220910T172024.141993.tar.zst"));
}

#[test]
fn matches_with_relative_path() {
    assert!(matches("./backups/backup-20220910T172024.141993.tar.zst"));
}

#[test]
fn extracts_timestamp_without_microseconds() {
    let ts = extract_timestamp("backup-20220910T172024.141993.tar.zst");
    assert_eq!(ts, Some("20220910T172024".to_string()));
}

#[test]
fn rejects_missing_extension() {
    assert!(!matches("backup-20220910T172024.141993.tar"));
    assert!(!matches("backup-20220910T172024.141993"));
}

#[test]
fn rejects_wrong_prefix() {
    assert!(!matches("snapshot-20220910T172024.141993.tar.zst"));
    assert!(!matches("20220910T172024.141993.tar.zst"));
}

#[test]
fn rejects_malformed_timestamp() {
    assert!(!matches("backup-20220910172024.141993.tar.zst"));
    assert!(!matches("backup-2022-09-10T17:20:24.141993.tar.zst"));
    assert!(!matches("backup-20220910T1720.141993.tar.zst"));
}

#[test]
fn rejects_missing_microseconds() {
    assert!(!matches("backup-20220910T172024.tar.zst"));
}

#[test]
fn accepts_various_valid_timestamps() {
    assert!(matches("backup-20240101T000000.000000.tar.zst"));
    assert!(matches("backup-20241231T235959.999999.tar.zst"));
    assert!(matches("backup-20240229T120000.123456.tar.zst"));
}

#[test]
fn formats_counts_correctly() {
    let overview =
        Overview { version: "1.0".to_string(), num_sessions: 3, num_windows: 12, num_panes: 47 };

    let output = overview.to_string();
    assert_eq!(output, "3 sessions 12 windows 47 panes");
}

#[test]
fn handles_singular_counts() {
    let overview =
        Overview { version: "1.0".to_string(), num_sessions: 1, num_windows: 1, num_panes: 1 };

    let output = overview.to_string();
    assert_eq!(output, "1 sessions 1 windows 1 panes");
}

#[test]
fn handles_zero_counts() {
    let overview =
        Overview { version: "1.0".to_string(), num_sessions: 0, num_windows: 0, num_panes: 0 };

    let output = overview.to_string();
    assert_eq!(output, "0 sessions 0 windows 0 panes");
}

#[test]
fn format_version_is_semver_like() {
    assert!(FORMAT_VERSION.contains('.'));
    assert!(!FORMAT_VERSION.is_empty());
}

#[test]
fn panes_dir_name_is_reasonable() {
    assert!(!PANES_DIR_NAME.is_empty());
    assert!(!PANES_DIR_NAME.contains('/'));
    assert!(!PANES_DIR_NAME.contains('\\'));
}

#[test]
fn metadata_filename_is_json() {
    assert!(METADATA_FILENAME.ends_with(".json"));
    assert_eq!(VERSION_FILENAME, "version");
}

#[test]
fn report_in_words() {
    let report = Report { num_sessions: 3, num_windows: 12, num_panes: 47 };
    assert_eq!(report.to_string(), "3 sessions (12 windows, 47 panes)");
}

fn pane(id: &str, is_active: bool) -> Pane {
    Pane {
        id: PaneId::from_str(id).unwrap(),
        index: 0,
        is_active,
        title: "title".to_string(),
        dirpath: "/tmp".to_string(),
        command: "zsh".to_string(),
    }
}

fn window(id: &str, layout: &str, session: &str) -> Window {
    Window {
        id: WindowId::from_str(id).unwrap(),
        index: 0,
        is_active: false,
        layout: layout.to_string(),
        name: format!("w{id}"),
        sessions: vec![session.to_string()],
    }
}

fn session(id: &str, name: &str) -> Session {
    Session { id: SessionId::from_str(id).unwrap(), name: name.to_string(), dirpath: "/".to_string() }
}

fn sample() -> Metadata {
    Metadata {
        version: "1.0".to_string(),
        client: Client { session_name: "a".to_string(), last_session_name: "b".to_string() },
        sessions: vec![session("$1", "a"), session("$2", "b")],
        windows: vec![
            window("@1", "41e9,279x71,0,0[279x40,0,0,71,279x30,0,41{147x30,0,41,72,131x30,148,41,73}]", "a"),
            window("@2", "64ef,334x85,0,0,10", "b"),
            window("@3", "64f0,334x85,0,0,11", "a"),
        ],
        panes: vec![pane("%10", true), pane("%73", false), pane("%11", true), pane("%71", true), pane("%72", false)],
    }
}

#[test]
fn overview_counts_everything() {
    let overview = sample().overview();
    assert_eq!(
        overview,
        Overview { version: "1.0".to_string(), num_sessions: 2, num_windows: 3, num_panes: 5 }
    );
    let report = sample().get_report();
    assert_eq!(report, Report { num_sessions: 2, num_windows: 3, num_panes: 0 });
}

#[test]
fn windows_of_a_session() {
    let metadata = sample();
    let windows = metadata.windows_related_to(&metadata.sessions[0]);
    assert_eq!(windows, vec![&metadata.windows[0], &metadata.windows[2]]);
    let windows = metadata.windows_related_to(&metadata.sessions[1]);
    assert_eq!(windows, vec![&metadata.windows[1]]);
    let windows = metadata.windows_related_to(&session("$9", "none"));
    assert!(windows.is_empty());
}

#[test]
fn panes_of_a_window() {
    let metadata = sample();
    let panes = metadata.panes_related_to(&metadata.windows[0]);
    assert_eq!(panes, vec![&metadata.panes[1], &metadata.panes[3], &metadata.panes[4]]);
    let panes = metadata.panes_in_layout_order(&metadata.windows[0]).unwrap();
    assert_eq!(panes, vec![&metadata.panes[3], &metadata.panes[4], &metadata.panes[1]]);
    let panes = metadata.panes_related_to(&metadata.windows[1]);
    assert_eq!(panes, vec![&metadata.panes[0]]);
}

#[test]
fn panes_of_a_window_that_names_an_unknown_pane() {
    let metadata = sample();
    let other = window("@7", "64ef,334x85,0,0,99", "a");
    assert!(metadata.panes_related_to(&other).is_empty());
    assert_eq!(metadata.panes_in_layout_order(&other), Err(Error::UnknownPane("%99".to_string())));
    let broken = window("@8", "64ef,334x85,0,0", "a");
    assert!(matches!(metadata.panes_in_layout_order(&broken), Err(Error::ParseError { .. })));
}

#[test]
fn version_of_an_archive() {
    assert_eq!(check_version("1.0"), Ok(()));
    assert_eq!(
        check_version(""),
        Err(Error::ArchiveVersion("could not read the format version".to_string()))
    );
    assert_eq!(
        check_version("2.0"),
        Err(Error::ArchiveVersion("Unsupported format version: `2.0`".to_string()))
    );
}

#[test]
fn metadata_of_an_archive() {
    assert_eq!(check_metadata(b"{}", "/b/x.tar.zst"), Ok(()));
    assert_eq!(
        check_metadata(b"", "/b/x.tar.zst"),
        Err(Error::MissingMetadata("missing metadata in `/b/x.tar.zst`".to_string()))
    );
}

#[test]
fn generates_path_in_given_directory() {
    let path = tmux_backup::archive::new_backup_filepath("/my/backup/dir");
    assert!(path.starts_with("/my/backup/dir"));
}

#[test]
fn generated_filename_has_correct_extension() {
    let path = tmux_backup::archive::new_backup_filepath("/tmp");
    assert!(path.ends_with(".tar.zst"));
}

#[test]
fn generated_filename_starts_with_backup() {
    let path = tmux_backup::archive::new_backup_filepath("/tmp");
    let filename = path.rsplit('/').next().unwrap();
    assert!(filename.starts_with("backup-"));
}

#[test]
fn generated_path_matches_pattern() {
    let path = tmux_backup::archive::new_backup_filepath("/tmp");
    let pattern = backup_filepath_pattern();
    let re = Regex::new(pattern).unwrap();
    assert!(re.is_match(&path));
}

#[test]
fn accepts_path_with_trailing_slash() {
    let path = tmux_backup::archive::new_backup_filepath("/tmp/");
    assert!(path.starts_with("/tmp"));
}

#[test]
fn works_with_pathbuf() {
    let dir = String::from("/var/backups");
    let path = tmux_backup::archive::new_backup_filepath(&dir);
    assert!(path.starts_with("/var/backups"));
}

#[test]
fn backup_filepath_for_a_moment() {
    let path = tmux_backup::archive::backup_filepath("/b", "20220910T172024.141993");
    assert_eq!(path, "/b/backup-20220910T172024.141993.tar.zst");
    let path = tmux_backup::archive::backup_filepath("/b/", "20220910T172024.141993");
    assert_eq!(path, "/b/backup-20220910T172024.141993.tar.zst");
    assert_eq!(tmux_backup::archive::backup_filename("x"), "backup-x.tar.zst");
}

#[test]
fn whole_and_broken_snapshots() {
    assert_eq!(sample().validate(), Ok(()));

    let mut lost_pane = sample();
    lost_pane.panes.remove(4);
    assert_eq!(lost_pane.validate(), Err(Error::UnknownPane("%72".to_string())));

    let mut lost_session = sample();
    lost_session.sessions.remove(1);
    assert_eq!(lost_session.validate(), Err(Error::UnknownSession("b".to_string())));

    let mut broken_layout = sample();
    broken_layout.windows[2].layout = "64f0,334x85".to_string();
    assert!(matches!(broken_layout.validate(), Err(Error::ParseError { .. })));
}
