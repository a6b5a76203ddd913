use hunter::files::File;
use hunter::proclist::{fg_exit_info, proc_info, replace_all, running_header, Cmd};
use hunter::term::{color_green, color_red, reset, status_bg};

fn f(path: &str) -> File {
    File::new_from_path(path, false)
}

fn cmd(text: &str) -> Cmd {
    Cmd {
        cmd: text.to_string(),
        args: None,
        vars: None,
        short_cmd: None,
        cwd: File::new_from_path("/home/me", true),
        cwd_files: None,
        tab_files: None,
        tab_paths: None,
    }
}

#[test]
fn selected_files_fill_in_the_command() {
    let mut c = cmd("tar czf out.tgz $s");
    c.cwd_files = Some(vec![f("/home/me/a b"), f("/home/me/it's"), f("/etc/x")]);
    assert_eq!(
        c.process(),
        vec![
            "tar".to_string(),
            "czf".to_string(),
            "out.tgz".to_string(),
            "'a b' 'it'\\''s' '/etc/x'".to_string(),
        ]
    );
    assert!(c.cwd_files.is_none());
}

#[test]
fn tab_placeholders_fill_in_the_command() {
    let mut c = cmd("cp $0s $1");
    c.tab_files = Some(vec![vec![f("/home/me/x")], vec![f("/tmp/y")]]);
    c.tab_paths = Some(vec![File::new_from_path("/home/me", true), File::new_from_path("/tmp", true)]);
    assert_eq!(c.process(), vec!["cp".to_string(), "'x'".to_string(), "'/tmp'".to_string()]);
    let mut plain = cmd("ls  -l");
    plain.cwd_files = Some(vec![f("/home/me/a")]);
    assert_eq!(plain.process(), vec!["ls".to_string(), "".to_string(), "-l".to_string()]);
}

#[test]
fn subshell_lines() {
    let mut c = cmd("vim $s!!");
    c.cwd_files = Some(vec![f("/home/me/it's")]);
    let fg = c.prepare_subshell("/bin/sh", "/home/me");
    assert!(fg);
    assert_eq!(c.cmd, "/bin/sh");
    assert_eq!(c.args, Some(vec!["-c".to_string(), "vim 'it'\\''s'".to_string()]));
    assert_eq!(c.short_cmd, Some("vim 'it's'".to_string()));
    let mut bg = cmd("make \"all\" /home/me/x");
    assert!(!bg.prepare_subshell("sh", "/home/me"));
    assert_eq!(bg.short_cmd, Some("make all ~/x".to_string()));
}

#[test]
fn replacing_text() {
    assert_eq!(replace_all("aaa", "aa", "b"), "ba");
    assert_eq!(replace_all("x-y-z", "-", ""), "xyz");
    assert_eq!(replace_all("abc", "d", "e"), "abc");
}

#[test]
fn process_reports() {
    assert_eq!(running_header(2, 5), "Running processes: 2 / 5");
    assert_eq!(proc_info("ls", 42, None, None), "still running");
    assert_eq!(
        proc_info("ls", 42, Some(0), Some(true)),
        format!(
            "ls:42 exited {}successfully{}{} with status: {}0",
            color_green(),
            reset(),
            status_bg(),
            color_green()
        )
    );
    assert_eq!(
        proc_info("x", 1, Some(-9), Some(false)),
        format!(
            "x:1 exited {}successfully{}{} with status: {}-9",
            color_green(),
            reset(),
            status_bg(),
            color_red()
        )
    );
    assert_eq!(
        fg_exit_info("make", false, 2),
        format!(
            "make exited {}unsuccessfully{}{} with status: {}2",
            color_red(),
            reset(),
            status_bg(),
            color_red()
        )
    );
}
