use tmux_backup::save::{detected_shells, is_shell_command, lines_to_drop_for_pane};

#[test]
fn recognizes_zsh() {
    assert!(is_shell_command("zsh"));
}

#[test]
fn recognizes_bash() {
    assert!(is_shell_command("bash"));
}

#[test]
fn recognizes_fish() {
    assert!(is_shell_command("fish"));
}

#[test]
fn rejects_vim() {
    assert!(!is_shell_command("vim"));
}

#[test]
fn rejects_nvim() {
    assert!(!is_shell_command("nvim"));
}

#[test]
fn rejects_python() {
    assert!(!is_shell_command("python"));
}

#[test]
fn rejects_empty_command() {
    assert!(!is_shell_command(""));
}

#[test]
fn rejects_similar_but_different() {
    assert!(!is_shell_command("zsh-5.9"));
    assert!(!is_shell_command("/bin/zsh"));
    assert!(!is_shell_command("bash-5.2"));
}

#[test]
fn case_sensitive() {
    assert!(!is_shell_command("ZSH"));
    assert!(!is_shell_command("BASH"));
    assert!(!is_shell_command("Fish"));
}

#[test]
fn drops_lines_for_shells() {
    assert_eq!(lines_to_drop_for_pane("zsh", 2), 2);
    assert_eq!(lines_to_drop_for_pane("bash", 3), 3);
    assert_eq!(lines_to_drop_for_pane("fish", 1), 1);
}

#[test]
fn zero_drop_for_non_shells() {
    assert_eq!(lines_to_drop_for_pane("vim", 5), 0);
    assert_eq!(lines_to_drop_for_pane("python", 10), 0);
    assert_eq!(lines_to_drop_for_pane("htop", 3), 0);
}

#[test]
fn zero_requested_means_zero_dropped() {
    assert_eq!(lines_to_drop_for_pane("zsh", 0), 0);
    assert_eq!(lines_to_drop_for_pane("bash", 0), 0);
}

#[test]
fn detected_shells_includes_common_shells() {
    assert!(detected_shells().contains(&"zsh"));
    assert!(detected_shells().contains(&"bash"));
    assert!(detected_shells().contains(&"fish"));
}

#[test]
fn detected_shells_is_not_empty() {
    assert!(!detected_shells().is_empty());
}
