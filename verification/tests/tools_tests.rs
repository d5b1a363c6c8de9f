use argus::backup::{
    build_forget_args, compose_backup_notification, expand_path, get_env_vars, normalize_urgency,
    parse_diff_output, ResticConfig,
};
use argus::docs::{capitalize_word, relative_to_string, resolve_path, sanitize_description, sort_doc_entries, titleize, DocEntry};
use argus::schedule::{get_active_theme_path, get_schedule_path};
use argus::strutil::{fmt_u64, fmt_u64_pad2, fmt_u64_pad4, str_eq, to_lower, trim};
use argus::sysmon::{parse_is_active, parse_is_enabled, parse_show_property, parse_show_value};
use argus::terminalcfg::{
    backup_extension, backup_filename, get_backup_dir, get_config_path, get_default_bash_config,
    get_default_kitty_config, get_default_starship_config, get_default_tmux_config,
    get_default_zsh_config, parse_backup_filename, sort_backups_newest_first, TerminalBackup,
    TerminalConfigType,
};

#[test]
fn config_type_names_parse_case_insensitively() {
    assert_eq!(TerminalConfigType::from_str("kitty"), Some(TerminalConfigType::Kitty));
    assert_eq!(TerminalConfigType::from_str("KITTY"), Some(TerminalConfigType::Kitty));
    assert_eq!(TerminalConfigType::from_str("Starship"), Some(TerminalConfigType::Starship));
    assert_eq!(TerminalConfigType::from_str("zsh"), Some(TerminalConfigType::Zsh));
    assert_eq!(TerminalConfigType::from_str("bash"), Some(TerminalConfigType::Bash));
    assert_eq!(TerminalConfigType::from_str("tmux"), Some(TerminalConfigType::Tmux));
    assert_eq!(TerminalConfigType::from_str("fish"), None);
    assert_eq!(TerminalConfigType::from_str(""), None);
}

#[test]
fn config_paths_are_home_relative() {
    assert_eq!(get_config_path(TerminalConfigType::Kitty), ".config/kitty/kitty.conf");
    assert_eq!(get_config_path(TerminalConfigType::Zsh), ".zshrc");
    assert_eq!(get_backup_dir(TerminalConfigType::Tmux), ".config/argus/terminal/tmux/backups");
}

#[test]
fn backup_names_carry_the_timestamp_and_extension() {
    assert_eq!(backup_extension(TerminalConfigType::Starship), "toml");
    assert_eq!(backup_filename(1_700_000_000, TerminalConfigType::Kitty), "1700000000.conf");
    assert_eq!(backup_filename(5, TerminalConfigType::Zsh), "5.zshrc");
}

#[test]
fn backup_listing_parses_and_sorts_newest_first() {
    let a = parse_backup_filename("1700000001.conf", "/b/1700000001.conf", "kitty").unwrap();
    let b = parse_backup_filename("1700000009.conf", "/b/1700000009.conf", "kitty").unwrap();
    let c = parse_backup_filename("1600000000.conf", "/b/1600000000.conf", "kitty").unwrap();
    assert!(parse_backup_filename("notanumber.conf", "/b/x", "kitty").is_none());
    assert_eq!(a.timestamp, 1_700_000_001);
    assert_eq!(a.config_type, "kitty");
    let sorted: Vec<TerminalBackup> = sort_backups_newest_first(vec![a, c, b]);
    let stamps: Vec<u64> = sorted.iter().map(|x| x.timestamp).collect();
    assert_eq!(stamps, vec![1_700_000_009, 1_700_000_001, 1_600_000_000]);
}

#[test]
fn default_configs_keep_their_known_heads() {
    assert!(get_default_kitty_config().starts_with("# Kitty Terminal Configuration\n"));
    assert!(get_default_starship_config().starts_with("# Starship Prompt Configuration\n"));
    assert!(get_default_zsh_config().contains("HISTFILE=~/.zsh_history"));
    assert!(get_default_bash_config().contains("HISTCONTROL=ignoreboth"));
    assert!(get_default_tmux_config().contains("set -g prefix C-a"));
}

#[test]
fn timer_state_parsing_trims_the_output() {
    assert!(parse_is_enabled("enabled\n"));
    assert!(!parse_is_enabled("disabled\n"));
    assert!(parse_is_active("  active "));
    assert!(!parse_is_active("inactive"));
}

#[test]
fn property_lines_split_on_the_equals_sign() {
    assert_eq!(
        parse_show_property("NextElapseUSecRealtime=Mon 2024\n").as_deref(),
        Some("Mon 2024")
    );
    assert!(parse_show_property("NextElapseUSecRealtime=\n").is_none());
    assert!(parse_show_property("NextElapseUSecRealtime=n/a\n").is_none());
    assert!(parse_show_property("garbage").is_none());
    assert_eq!(parse_show_value("Result=\n").as_deref(), Some(""));
}

#[test]
fn paths_expand_only_a_leading_tilde_slash() {
    assert_eq!(expand_path("~/.config", "/home/u"), "/home/u/.config");
    assert_eq!(expand_path("/abs/path", "/home/u"), "/abs/path");
    assert_eq!(expand_path("~", "/home/u"), "~");
}

#[test]
fn backup_environment_points_at_the_repository() {
    let cfg = ResticConfig::default();
    let env = get_env_vars(&cfg, "/home/u");
    assert_eq!(env.len(), 2);
    assert_eq!(env[0].0, "RESTIC_REPOSITORY");
    assert_eq!(env[0].1, "/media/nas_backup/restic-repo");
    assert_eq!(env[1].0, "RESTIC_PASSWORD_FILE");
    assert_eq!(env[1].1, "/home/u/.config/restic/password.txt");
}

#[test]
fn retention_arguments_follow_the_configuration() {
    let cfg = ResticConfig::default();
    let dry = build_forget_args(&cfg.retention, true);
    let flat: Vec<&str> = dry.iter().map(|s| s.as_str()).collect();
    assert_eq!(
        flat,
        vec!["forget", "--dry-run", "--json", "--keep-daily=7", "--keep-weekly=4", "--keep-monthly=6"]
    );
    let prune = build_forget_args(&cfg.retention, false);
    let flat2: Vec<&str> = prune.iter().map(|s| s.as_str()).collect();
    assert_eq!(
        flat2,
        vec!["forget", "--prune", "--keep-daily=7", "--keep-weekly=4", "--keep-monthly=6"]
    );
}

#[test]
fn diff_lines_classify_by_their_first_character() {
    let out = parse_diff_output("+ /a/new\n- /b/gone\nM /c/changed\nx ignored\n\n+\n");
    let added: Vec<&str> = out.added.iter().map(|s| s.as_str()).collect();
    let removed: Vec<&str> = out.removed.iter().map(|s| s.as_str()).collect();
    let modified: Vec<&str> = out.modified.iter().map(|s| s.as_str()).collect();
    assert_eq!(added, vec!["/a/new"]);
    assert_eq!(removed, vec!["/b/gone"]);
    assert_eq!(modified, vec!["/c/changed"]);
}

#[test]
fn notification_urgency_normalizes() {
    assert_eq!(normalize_urgency("LOW"), "low");
    assert_eq!(normalize_urgency("critical"), "critical");
    assert_eq!(normalize_urgency("shout"), "normal");
    assert_eq!(normalize_urgency("normal"), "normal");
}

#[test]
fn backup_notifications_name_the_snapshot() {
    let (title, body, urgency, icon) =
        compose_backup_notification("abcdef0123456789", true, &None);
    assert_eq!(title, "Backup Completed");
    assert_eq!(body, "Snapshot abcdef01 created successfully.");
    assert_eq!(urgency, "normal");
    assert_eq!(icon, "dialog-information");

    let (_, body2, _, _) = compose_backup_notification(
        "ab",
        true,
        &Some(String::from("Nice.")),
    );
    assert_eq!(body2, "Snapshot ab created successfully. Nice.");

    let (title3, body3, urgency3, icon3) = compose_backup_notification("x", false, &None);
    assert_eq!(title3, "Backup Failed");
    assert_eq!(body3, "An error occurred during backup.");
    assert_eq!(urgency3, "critical");
    assert_eq!(icon3, "dialog-error");
}

#[test]
fn descriptions_sanitize_to_file_name_slugs() {
    assert_eq!(sanitize_description("Before big change!"), "Before-big-change_");
    assert_eq!(sanitize_description("ok_name-123"), "ok_name-123");
    let long = "a".repeat(80);
    assert_eq!(sanitize_description(&long).len(), 50);
}

#[test]
fn titles_capitalize_their_words() {
    assert_eq!(capitalize_word("hello"), "Hello");
    assert_eq!(capitalize_word("wORLD"), "World");
    assert_eq!(capitalize_word(""), "");
    assert_eq!(titleize("getting_started-guide"), "Getting Started Guide");
    assert_eq!(titleize("__a__"), "A");
    assert_eq!(titleize(""), "");
}

#[test]
fn path_segments_join_with_slashes() {
    let segs = vec![String::from("guides"), String::from("setup.md")];
    assert_eq!(relative_to_string(&segs), "guides/setup.md");
    assert_eq!(relative_to_string(&vec![]), "");
    assert_eq!(relative_to_string(&vec![String::from("a")]), "a");
}

#[test]
fn string_helpers_behave() {
    assert!(str_eq("abc", "abc"));
    assert!(!str_eq("abc", "abd"));
    assert_eq!(to_lower("MiXeD-09"), "mixed-09");
    assert_eq!(trim("  x y \n"), "x y");
    assert_eq!(trim("   "), "");
    assert_eq!(fmt_u64(0), "0");
    assert_eq!(fmt_u64(9876), "9876");
    assert_eq!(fmt_u64_pad2(7), "07");
    assert_eq!(fmt_u64_pad2(70), "70");
    assert_eq!(fmt_u64_pad4(7), "0007");
    assert_eq!(fmt_u64_pad4(2024), "2024");
    assert_eq!(fmt_u64_pad4(12345), "12345");
}

#[test]
fn doc_entries_sort_by_category_then_title() {
    let mk = |cat: &str, title: &str| DocEntry {
        title: String::from(title),
        path: String::from("p"),
        category: String::from(cat),
    };
    let sorted = sort_doc_entries(vec![
        mk("Guides", "Zsh"),
        mk("General", "Intro"),
        mk("Guides", "Backup"),
        mk("General", "About"),
    ]);
    let keys: Vec<(String, String)> = sorted
        .iter()
        .map(|e| (e.category.clone(), e.title.clone()))
        .collect();
    assert_eq!(
        keys,
        vec![
            (String::from("General"), String::from("About")),
            (String::from("General"), String::from("Intro")),
            (String::from("Guides"), String::from("Backup")),
            (String::from("Guides"), String::from("Zsh")),
        ]
    );
    assert_eq!(resolve_path("/abs/doc.md", "/root"), "/abs/doc.md");
    assert_eq!(resolve_path("rel/doc.md", "/root"), "/root/rel/doc.md");
}

#[test]
fn store_paths_are_fixed() {
    assert_eq!(get_schedule_path(), ".config/argus/themes/schedule.json");
    assert_eq!(get_active_theme_path(), ".config/argus/themes/.active.json");
}
