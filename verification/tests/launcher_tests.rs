use wazuh_agent_installer::launcher::{get_launcher_args, get_parent_pid_from_args, osascript_command};

fn v(xs: &[&str]) -> Vec<String> {
    xs.iter().map(|x| x.to_string()).collect()
}

#[test]
fn launcher_args_drop_parent_pid() {
    assert_eq!(get_launcher_args(&v(&["prog", "--parent-pid", "123", "a", "b"])), v(&["a", "b"]));
    assert_eq!(get_launcher_args(&v(&["prog", "x", "--parent-pid"])), v(&["x"]));
    assert_eq!(get_launcher_args(&v(&["prog"])), v(&[]));
    assert_eq!(get_launcher_args(&v(&[])), v(&[]));
    assert_eq!(
        get_launcher_args(&v(&["prog", "--parent-pid", "--parent-pid", "c"])),
        v(&["c"])
    );
}

#[test]
fn parent_pid_read() {
    assert_eq!(get_parent_pid_from_args(&v(&["prog", "a", "--parent-pid", "4242"])), Some(4242));
    assert_eq!(get_parent_pid_from_args(&v(&["prog", "--parent-pid", "-12"])), Some(-12));
    assert_eq!(get_parent_pid_from_args(&v(&["prog", "--parent-pid", "+7"])), Some(7));
    assert_eq!(get_parent_pid_from_args(&v(&["prog", "--parent-pid", "-2147483648"])), Some(i32::MIN));
}

#[test]
fn parent_pid_rejected() {
    assert_eq!(get_parent_pid_from_args(&v(&["prog", "--parent-pid", "2147483648"])), None);
    assert_eq!(get_parent_pid_from_args(&v(&["prog", "--parent-pid", "99999999999999"])), None);
    assert_eq!(get_parent_pid_from_args(&v(&["prog", "--parent-pid", ""])), None);
    assert_eq!(get_parent_pid_from_args(&v(&["prog", "--parent-pid", "-"])), None);
    assert_eq!(get_parent_pid_from_args(&v(&["prog", "--parent-pid", " 1"])), None);
    assert_eq!(get_parent_pid_from_args(&v(&["prog", "--parent-pid"])), None);
    assert_eq!(get_parent_pid_from_args(&v(&["prog", "1"])), None);
    assert_eq!(
        get_parent_pid_from_args(&v(&["prog", "--parent-pid", "x", "--parent-pid", "5"])),
        None
    );
}

#[test]
fn macos_relaunch_script() {
    let c = osascript_command("/Applications/W.app/exe", 77, &v(&["it's", "say \"hi\"\\"]), "/Users/me");
    assert_eq!(c.program, "osascript");
    assert_eq!(c.args.len(), 2);
    assert_eq!(c.args[0], "-e");
    let expected = r#"do shell script "export HOME='/Users/me'; sh -c ''\\''/Applications/W.app/exe'\\'' '\\''--parent-pid 77'\\'' '\\''it'\\''\\'\\'''\\''s'\\'' '\\''say \"hi\"\\'\\'''" with administrator privileges"#;
    assert_eq!(c.args[1], expected);
}

use wazuh_agent_installer::launcher::{applescript_escape_chars, shell_join_chars, shell_quote_chars};
use wazuh_agent_installer::text::{chars_of, string_of_all};

#[test]
fn shell_quote_word() {
    assert_eq!(string_of_all(&shell_quote_chars(&chars_of("it's"))), "'it'\\''s'");
    assert_eq!(string_of_all(&shell_quote_chars(&chars_of(""))), "''");
    assert_eq!(string_of_all(&shell_quote_chars(&chars_of("a b$c"))), "'a b$c'");
}

#[test]
fn shell_join_words() {
    let parts = vec![chars_of("/bin/x"), chars_of("a'b"), chars_of("")];
    assert_eq!(string_of_all(&shell_join_chars(&parts)), "'/bin/x' 'a'\\''b' ''");
    assert_eq!(string_of_all(&shell_join_chars(&vec![])), "");
}

#[test]
fn applescript_escaping() {
    assert_eq!(
        string_of_all(&applescript_escape_chars(&chars_of("a\\b\"c"))),
        "a\\\\b\\\"c"
    );
}

#[test]
fn launcher_args_idempotent() {
    let once = get_launcher_args(&v(&["p", "a", "--parent-pid", "1", "b"]));
    let mut again = v(&["p"]);
    again.extend(once.clone());
    assert_eq!(get_launcher_args(&again), once);
}
