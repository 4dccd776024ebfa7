use oh_tray::config::next_runtime_id;
use oh_tray::shell::{build_shell, Host};

#[test]
fn unix_commands_go_to_sh() {
    let shell = build_shell("echo \"a\"", Host { windows: false, script_id: 5 });
    assert_eq!(shell.program, "sh");
    assert_eq!(shell.args, vec!["-c".to_string(), "echo \"a\"".to_string()]);
    assert!(shell.script.is_none());
}

#[test]
fn windows_commands_go_to_a_hidden_script() {
    let shell = build_shell("start \"my app\" app.exe", Host { windows: true, script_id: 1024 });
    assert_eq!(shell.program, "wscript.exe");
    assert!(shell.args.is_empty());
    let script = shell.script.unwrap();
    assert_eq!(script.file_name, "oh_tray_1024.vbs");
    assert_eq!(
        script.content,
        "CreateObject(\"Wscript.Shell\").Run \"cmd /C start \"\"my app\"\" app.exe\", 0, True"
    );
    assert_eq!(script.creation_flags, 0x08000000);
    assert_eq!(script.remove_after_ms, 1000);
}

#[test]
fn the_script_holds_the_command() {
    let cmd = "\"c:\\a b\\x.exe\" /q \"\"";
    let script = build_shell(cmd, Host { windows: true, script_id: 0 }).script.unwrap();
    let inner = script
        .content
        .strip_prefix("CreateObject(\"Wscript.Shell\").Run \"cmd /C ")
        .unwrap()
        .strip_suffix("\", 0, True")
        .unwrap();
    assert_eq!(inner.replace("\"\"", "\""), cmd);
}

#[test]
fn scripts_with_different_numbers_have_different_names() {
    let name = |script_id: usize| {
        build_shell("x", Host { windows: true, script_id }).script.unwrap().file_name
    };
    assert_ne!(name(1), name(11));
    assert_eq!(name(3), name(3));
}

#[test]
fn scripts_of_equal_commands_do_not_collide() {
    let mut next: usize = usize::MAX - 1;
    let mut names: Vec<String> = vec![];
    for _ in 0..5 {
        let host = Host { windows: true, script_id: next_runtime_id(&mut next) };
        let name = build_shell("same", host).script.unwrap().file_name;
        assert!(!names.contains(&name));
        names.push(name);
    }
}
