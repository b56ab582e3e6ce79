use pathmaster::config::{ModificationType, ShellType};
use pathmaster::flush::{detect_shell_type, keep_valid};
use pathmaster::generic::GenericHandler;
use pathmaster::ksh::KshHandler;
use pathmaster::registry::ShellHandler;
use pathmaster::timestamp::LocalTime;
use std::path::Path;

fn strings(v: &[&str]) -> Vec<String> {
    v.iter().map(|s| s.to_string()).collect()
}

fn noon() -> LocalTime {
    LocalTime { year: 2024, month: 1, day: 5, hour: 9, minute: 3, second: 7 }
}

fn home() -> Option<String> {
    Some("/home/user".to_string())
}

fn assignment_lines(text: &str) -> usize {
    text.lines().filter(|l| l.contains("PATH=")).count()
}

#[test]
fn test_generic_path_parsing() {
    let handler = GenericHandler::new();
    let content = r#"
# Some config
PATH=/usr/bin:/usr/local/bin
export PATH=/usr/bin:/home/user/bin
"#;

    let entries = handler.parse_path_entries(content);
    assert_eq!(entries.len(), 4);
    assert!(entries.iter().any(|p| Path::new(p).ends_with("usr/bin")));
    assert!(entries.iter().any(|p| Path::new(p).ends_with("home/user/bin")));
}

#[test]
fn test_ksh_path_handling() {
    let handler = KshHandler::new();
    let content = r#"
# Some config
typeset -x PATH=/usr/local/bin:/usr/bin
export PATH=$PATH:/home/user/bin
"#;

    let entries = handler.parse_path_entries(content);
    println!("Found entries: {:?}", entries);
    assert_eq!(entries.len(), 3, "Expected 3 unique paths");
    assert!(entries.iter().any(|p| Path::new(p).ends_with("usr/bin")));
    assert!(entries.iter().any(|p| Path::new(p).ends_with("usr/local/bin")));
    assert!(entries.iter().any(|p| Path::new(p).ends_with("home/user/bin")));
}

#[test]
fn test_generic_config_update() {
    let handler = GenericHandler::with_config_path("/tmp/.profile".to_string(), home());
    let initial_content = r#"
# Initial config
PATH=/usr/bin:/old/path
export PATH=/usr/bin:/another/old/path
"#;
    let new_entries = strings(&["/usr/bin", "/usr/local/bin"]);
    let updated_content = handler.update_path_in_config(initial_content, &new_entries);
    assert!(!updated_content.contains("/old/path"));
    assert!(updated_content.contains("export PATH="));
    assert!(updated_content.contains("/usr/local/bin"));
}

#[test]
fn test_ksh_config_update() {
    let handler = KshHandler::from_home(home());
    let initial_content = r#"
# Initial config
typeset -x PATH=/usr/bin:/old/path
"#;
    let new_entries = strings(&["/usr/bin", "/usr/local/bin"]);
    let updated_content = handler.update_path_in_config(initial_content, &new_entries);
    assert!(!updated_content.contains("/old/path"));
    assert!(updated_content.contains("/usr/bin"));
    assert!(updated_content.contains("/usr/local/bin"));
}

#[test]
fn generic_parsing_keeps_order_and_duplicates() {
    let handler = GenericHandler::from_home(home());
    let content = "PATH=/usr/bin:/usr/local/bin\nexport PATH=/usr/bin:/home/user/bin\n";
    assert_eq!(
        handler.parse_path_entries(content),
        strings(&["/usr/bin", "/usr/local/bin", "/usr/bin", "/home/user/bin"])
    );
}

#[test]
fn ksh_parsing_drops_duplicates_and_variables() {
    let handler = KshHandler::from_home(home());
    let content = "typeset -x PATH=/usr/local/bin:/usr/bin\nexport PATH=$PATH:/home/user/bin\n";
    assert_eq!(
        handler.parse_path_entries(content),
        strings(&["/usr/local/bin", "/usr/bin", "/home/user/bin"])
    );
    let repeated = "export PATH=/a:/b\nexport PATH=/b:/a:/c\n";
    assert_eq!(handler.parse_path_entries(repeated), strings(&["/a", "/b", "/c"]));
}

#[test]
fn parsing_expands_tilde_and_strips_quotes() {
    let handler = GenericHandler::from_home(home());
    let content = "  export PATH=\"~/bin:~other/bin:/opt/~x:$HOME/y\"  \n";
    assert_eq!(
        handler.parse_path_entries(content),
        strings(&["/home/user/bin", "~other/bin", "/opt/~x"])
    );
    let no_home = GenericHandler::from_home(None);
    assert_eq!(no_home.parse_path_entries("PATH='~/bin'"), strings(&["~/bin"]));
    assert_eq!(no_home.parse_path_entries("PATH=~"), strings(&["~"]));
    assert_eq!(handler.parse_path_entries("PATH=~"), strings(&["/home/user"]));
}

#[test]
fn parsing_edge_cases() {
    let handler = GenericHandler::from_home(home());
    assert!(handler.parse_path_entries("").is_empty());
    assert!(handler.parse_path_entries("export PATH=\n# PATH=\"\"\n").is_empty());
    assert_eq!(handler.parse_path_entries("PATH=/a::/b\r\n"), strings(&["/a", "", "/b"]));
    assert!(handler.parse_path_entries("MYPATH=/x").is_empty());
    assert!(handler.parse_path_entries("export MANPATH=/usr/man").is_empty());
    assert!(handler.parse_path_entries("LD_LIBRARY_PATH=/lib").is_empty());
    assert!(handler.parse_path_entries("echo export PATH=/x").is_empty());
    assert_eq!(handler.parse_path_entries("export\t  PATH=/x"), strings(&["/x"]));
    assert!(handler.parse_path_entries("typeset -x PATH=/x").is_empty());
    let ksh = KshHandler::from_home(home());
    assert_eq!(ksh.parse_path_entries("typeset   -x\tPATH=/x"), strings(&["/x"]));
    assert!(ksh.parse_path_entries("typeset -xPATH=/x").is_empty());
    assert!(ksh.parse_path_entries("typeset PATH=/x").is_empty());
}

#[test]
fn format_gives_the_exact_block() {
    let handler = GenericHandler::from_home(home());
    let entries = strings(&["/usr/bin", "/usr/local/bin"]);
    assert_eq!(
        handler.format_path_export_at(&entries, &noon()),
        "\n# Updated by pathmaster on 2024-01-05 09:03:07\nexport PATH=\"/usr/bin:/usr/local/bin\"\n"
    );
    let ksh = KshHandler::from_home(home());
    assert_eq!(
        ksh.format_path_export_at(&Vec::new(), &noon()),
        "\n# Updated by pathmaster on 2024-01-05 09:03:07\nexport PATH=\"\"\n"
    );
}

#[test]
fn timestamp_years_outside_four_digits() {
    let handler = GenericHandler::from_home(home());
    let entries = strings(&["/bin"]);
    let mut t = noon();
    t.year = 12345;
    assert!(handler.format_path_export_at(&entries, &t).contains("on +12345-01-05 09:03:07\n"));
    t.year = -5;
    assert!(handler.format_path_export_at(&entries, &t).contains("on -0005-01-05 09:03:07\n"));
    t.year = 999;
    t.month = 12;
    t.day = 31;
    t.hour = 23;
    t.minute = 59;
    t.second = 59;
    assert!(handler.format_path_export_at(&entries, &t).contains("on 0999-12-31 23:59:59\n"));
}

#[test]
fn format_with_the_clock_has_the_same_shape() {
    let handler = GenericHandler::from_home(home());
    let block = handler.format_path_export(&strings(&["/usr/bin"]));
    let lines: Vec<&str> = block.split('\n').collect();
    assert_eq!(lines.len(), 4);
    assert_eq!(lines[0], "");
    assert!(lines[1].starts_with("# Updated by pathmaster on "));
    assert_eq!(lines[1].len(), "# Updated by pathmaster on ".len() + 19);
    assert_eq!(lines[2], "export PATH=\"/usr/bin\"");
    assert_eq!(lines[3], "");
}

#[test]
fn detection_numbers_lines_from_one() {
    let handler = KshHandler::from_home(home());
    let content = "# c\nPATH=/a\n  export PATH=/b\nx=1\ntypeset -x PATH=/c\n";
    let mods = handler.detect_path_modifications(content);
    let found: Vec<(usize, &str)> = mods.iter().map(|m| (m.line_number, m.content.as_str())).collect();
    assert_eq!(found, vec![(2, "PATH=/a"), (3, "  export PATH=/b"), (5, "typeset -x PATH=/c")]);
    assert!(mods.iter().all(|m| m.modification_type == ModificationType::Assignment));
    assert!(GenericHandler::from_home(home()).detect_path_modifications("# none\n").is_empty());
}

#[test]
fn end_to_end_update() {
    let handler = GenericHandler::from_home(home());
    let content = "\n# Initial config\nPATH=/usr/bin:/old/path\nexport PATH=/usr/bin:/another/old/path\n";
    let out = handler.update_path_in_config_at(content, &strings(&["/usr/bin", "/usr/local/bin"]), &noon());
    assert_eq!(
        out,
        "\n# Initial config\n# Updated by pathmaster on 2024-01-05 09:03:07\nexport PATH=\"/usr/bin:/usr/local/bin\"\n"
    );
    assert!(!out.contains("/old/path"));
    let exports: Vec<&str> = out.lines().filter(|l| l.starts_with("export PATH=")).collect();
    assert_eq!(exports.len(), 1);
    assert!(exports[0].contains("/usr/local/bin"));
}

#[test]
fn update_removes_every_assignment_and_adds_one() {
    let handler = KshHandler::from_home(home());
    let content = "a\nPATH=/x\nb\nexport PATH=/y\ntypeset -x PATH=/z\nc";
    assert_eq!(assignment_lines(content), 3);
    let out = handler.update_path_in_config(content, &strings(&["/bin"]));
    assert_eq!(assignment_lines(&out), 1);
    assert!(out.starts_with("a\nb\nc\n# Updated by pathmaster on "));
}

#[test]
fn update_keeps_other_lines_in_order() {
    let handler = GenericHandler::from_home(home());
    let content = "first\n\n# comment\nexport PATH=/old\nalias ll='ls -l'\nlast\n";
    let out = handler.update_path_in_config_at(content, &strings(&["/bin"]), &noon());
    assert!(out.starts_with("first\n\n# comment\nalias ll='ls -l'\nlast\n# Updated"));
    let empty = handler.update_path_in_config_at("", &strings(&["/bin"]), &noon());
    assert_eq!(empty, "\n# Updated by pathmaster on 2024-01-05 09:03:07\nexport PATH=\"/bin\"\n");
}

#[test]
fn update_twice_leaves_one_assignment() {
    let handler = GenericHandler::from_home(home());
    let entries = strings(&["/usr/bin", "/usr/local/bin"]);
    let once = handler.update_path_in_config("PATH=/a\nexport PATH=/b\n", &entries);
    let twice = handler.update_path_in_config(&once, &entries);
    assert_eq!(assignment_lines(&twice), 1);
    assert_eq!(twice.lines().last(), Some("export PATH=\"/usr/bin:/usr/local/bin\""));
}

#[test]
fn ksh_config_path_prefers_primary_then_fallbacks() {
    let handler = KshHandler::from_home(home());
    assert_eq!(handler.get_config_path(true, &vec![true, true]), "/home/user/.kshrc");
    assert_eq!(handler.get_config_path(false, &vec![true, true]), "/home/user/.profile");
    assert_eq!(handler.get_config_path(false, &vec![false, true]), "/home/user/.ksh_profile");
    assert_eq!(handler.get_config_path(false, &vec![false, false]), "/home/user/.kshrc");
    assert_eq!(
        handler.get_fallback_paths(),
        strings(&["/home/user/.profile", "/home/user/.ksh_profile"])
    );
    assert_eq!(handler.get_shell_type(), ShellType::Ksh);
}

#[test]
fn config_paths_in_home_or_root() {
    assert_eq!(GenericHandler::from_home(home()).get_config_path(), "/home/user/.profile");
    assert_eq!(GenericHandler::from_home(Some("/home/u/".to_string())).get_config_path(), "/home/u/.profile");
    assert_eq!(GenericHandler::from_home(None).get_config_path(), "/.profile");
    assert_eq!(KshHandler::from_home(None).get_config_path(true, &vec![false, false]), "/.kshrc");
    assert_eq!(GenericHandler::from_home(None).get_shell_type(), ShellType::Generic);
}

#[test]
fn flush_keeps_valid_entries_and_picks_shell() {
    let entries = strings(&["/a", "/gone", "/b"]);
    assert_eq!(keep_valid(&entries, &vec![true, false, true]), strings(&["/a", "/b"]));
    assert!(keep_valid(&entries, &vec![false, false, false]).is_empty());
    assert_eq!(detect_shell_type("/bin/ksh"), ShellType::Ksh);
    assert_eq!(detect_shell_type("/usr/bin/mksh"), ShellType::Ksh);
    assert_eq!(detect_shell_type("/bin/bash"), ShellType::Generic);
    assert_eq!(detect_shell_type(""), ShellType::Generic);
}

#[test]
fn registry_dispatches_by_dialect() {
    let content = "export PATH=/a:/b\nPATH=/a\n";
    let generic = ShellHandler::for_shell(ShellType::Generic, home());
    let ksh = ShellHandler::for_shell(ShellType::Ksh, home());
    assert_eq!(generic.get_shell_type(), ShellType::Generic);
    assert_eq!(ksh.get_shell_type(), ShellType::Ksh);
    assert_eq!(generic.parse_path_entries(content), strings(&["/a", "/b", "/a"]));
    assert_eq!(ksh.parse_path_entries(content), strings(&["/a", "/b"]));
    assert_eq!(
        ksh.update_path_in_config_at("x\nPATH=/a\n", &strings(&["/c"]), &noon()),
        "x\n# Updated by pathmaster on 2024-01-05 09:03:07\nexport PATH=\"/c\"\n"
    );
    assert_eq!(ShellHandler::for_current_user(ShellType::Ksh).get_shell_type(), ShellType::Ksh);
    assert!(ShellHandler::for_current_user(ShellType::Generic).update_path_in_config("", &Vec::new()).ends_with("export PATH=\"\"\n"));
}

#[test]
fn update_twice_differs_only_in_the_time() {
    let handler = KshHandler::from_home(home());
    let entries = strings(&["/usr/bin", "/usr/local/bin"]);
    let content = "# mine\nPATH=/a\nalias x=y\n";
    let mut later = noon();
    later.hour = 18;
    let once = handler.update_path_in_config_at(content, &entries, &noon());
    let twice = handler.update_path_in_config_at(&once, &entries, &later);
    assert_eq!(twice, handler.update_path_in_config_at(content, &entries, &later));
    assert_eq!(twice.matches("# Updated by pathmaster on ").count(), 1);
    let empty_once = handler.update_path_in_config_at("", &entries, &noon());
    let empty_twice = handler.update_path_in_config_at(&empty_once, &entries, &later);
    assert_eq!(empty_twice, handler.update_path_in_config_at("", &entries, &later));
}

#[test]
fn registry_dispatches_paths_format_and_detection() {
    let ksh = ShellHandler::for_shell(ShellType::Ksh, home());
    assert_eq!(ksh.get_primary_path(), "/home/user/.kshrc");
    assert_eq!(ksh.get_fallback_paths(), strings(&["/home/user/.profile", "/home/user/.ksh_profile"]));
    assert_eq!(ksh.get_config_path(false, &vec![false, true]), "/home/user/.ksh_profile");
    let generic = ShellHandler::for_shell(ShellType::Generic, home());
    assert!(generic.get_fallback_paths().is_empty());
    assert_eq!(generic.get_config_path(false, &Vec::new()), "/home/user/.profile");
    assert_eq!(
        generic.format_path_export_at(&strings(&["/bin"]), &noon()),
        "\n# Updated by pathmaster on 2024-01-05 09:03:07\nexport PATH=\"/bin\"\n"
    );
    assert!(generic.format_path_export(&strings(&["/bin"])).ends_with("export PATH=\"/bin\"\n"));
    let mods = ksh.detect_path_modifications("a\nexport PATH=/b\n");
    assert_eq!(mods.len(), 1);
    assert_eq!(mods[0].line_number, 2);
}
