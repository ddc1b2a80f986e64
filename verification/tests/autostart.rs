use lx_monitor::autostart::{autostart_entry, get_executable_name, is_desktop_file, is_process_running, parse_desktop_file};

#[test]
fn desktop_file_names() {
    assert!(is_desktop_file("app.desktop"));
    assert!(is_desktop_file("a.b.desktop"));
    assert!(!is_desktop_file(".desktop"));
    assert!(!is_desktop_file("app.desktop.bak"));
    assert!(!is_desktop_file("desktop"));
    assert!(!is_desktop_file(".."));
}

#[test]
fn desktop_entry_values() {
    let content = "[Desktop Entry]\nType=Application\nName=Nextcloud\nExec=/usr/bin/nextcloud --background\n\n[Desktop Action New]\nName=Other\nExec=other\n";
    let p = parse_desktop_file(content, "com.nextcloud.desktopclient.desktop", "User", "/home/u/.config/autostart/x.desktop").unwrap();
    assert_eq!(p.name, "Nextcloud");
    assert_eq!(p.command, "/usr/bin/nextcloud --background");
    assert_eq!(p.location, "User");
    assert_eq!(p.path, "/home/u/.config/autostart/x.desktop");
    assert!(!p.running);
}

#[test]
fn desktop_entry_fallbacks() {
    let p = parse_desktop_file("  [Desktop Entry]  \r\n  Exec= tool  \r\n", "my-tool.desktop", "System", "/etc/xdg/autostart/my-tool.desktop").unwrap();
    assert_eq!(p.name, "my-tool");
    assert_eq!(p.command, " tool");
    assert!(parse_desktop_file("[Desktop Entry]\nName=X\n", "x.desktop", "User", "p").is_none());
    assert!(parse_desktop_file("Exec=outside\n[Desktop Entry]\nName=X\n", "x.desktop", "User", "p").is_none());
    let later = parse_desktop_file("[Desktop Entry]\nExec=a\nExec=b\n[Desktop Entry]\nName=N\n", "x.desktop", "User", "p").unwrap();
    assert_eq!(later.command, "b");
    assert_eq!(later.name, "N");
}

#[test]
fn executable_names() {
    assert_eq!(get_executable_name("/usr/bin/nextcloud --background"), "nextcloud");
    assert_eq!(get_executable_name("  env FOO=1 x"), "env");
    assert_eq!(get_executable_name("dir/"), "");
    assert_eq!(get_executable_name("   "), "");
}

#[test]
fn running_ignores_case() {
    let names = vec!["systemd".to_string(), "NextCloud".to_string()];
    assert!(is_process_running(&names, "/usr/bin/nextcloud --background"));
    assert!(!is_process_running(&names, "/usr/bin/nextcloud-other"));
    assert!(!is_process_running(&Vec::new(), "x"));
    let e = autostart_entry("[Desktop Entry]\nExec=systemd\n", "s.desktop", "System", "p", &names).unwrap();
    assert!(e.running);
    assert_eq!(e.name, "s");
}
