use de::{shell_init, Shell, FISH_SHELL_INIT, POSIX_SHELL_INIT};

#[test]
fn shell_init_bypasses_the_wrapper_function() {
    let init = shell_init("bash").unwrap();
    assert!(init.contains("command de"));
    assert!(init.contains("builtin cd --"));
    assert!(init.contains("-h|--help|-V|--version|init|theme"));
}

#[test]
fn rejects_unknown_shells() {
    assert_eq!(shell_init("powershell"), None);
}

#[test]
fn each_shell_gets_its_script_by_name() {
    assert_eq!(shell_init(Shell::Bash.name()), Some(POSIX_SHELL_INIT));
    assert_eq!(shell_init(Shell::Zsh.name()), Some(POSIX_SHELL_INIT));
    assert_eq!(shell_init(Shell::Fish.name()), Some(FISH_SHELL_INIT));
    assert!(FISH_SHELL_INIT.contains("command de $argv"));
    assert_eq!(shell_init("Bash"), None);
    assert_eq!(shell_init(""), None);
}
