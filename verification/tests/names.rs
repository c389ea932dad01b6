use lookxy::app::attendees::parse_attendee_pairs;
use lookxy::app::names::{
    is_web_url, sanitize_filename, signature_body_html, signature_lines, strip_item_ext,
};
use lookxy::app::reading::normalize_cid;
use lookxy::app::reminders::{starts_in_phrase, utc_to_epoch};
use lookxy::cli::{
    cli_mode, config_file_path, downloads_dir, lookxy_dir, store_path_for, CliMode,
};
use lookxy::control::{download_path, resolve_explicit_dest};
use lookxy::skill::SKILL_MD;
use std::path::Path;

#[test]
fn utc_to_epoch_known_values() {
    assert_eq!(utc_to_epoch("1970-01-01T00:00:00Z"), 0);
    assert_eq!(utc_to_epoch("1970-01-01T00:01:00Z"), 60);
    assert_eq!(utc_to_epoch("1970-01-02T00:00:00Z"), 86400);
}

#[test]
fn sanitize_filename_strips_separators_and_traversal() {
    assert_eq!(sanitize_filename("report.pdf"), "report.pdf");
    assert_eq!(sanitize_filename("../../etc/passwd"), "______etc_passwd");
    assert_eq!(sanitize_filename("a\\b/c"), "a_b_c");
    assert_eq!(sanitize_filename("C:\\evil"), "C__evil");
    assert_eq!(sanitize_filename(""), "attachment");
    assert_eq!(sanitize_filename("   "), "attachment");
}

#[test]
fn sanitize_filename_strips_percent_to_block_cmd_var_expansion() {
    assert_eq!(sanitize_filename("%USERPROFILE%\\x"), "_USERPROFILE__x");
    assert_eq!(sanitize_filename("100%.txt"), "100_.txt");
}

#[test]
fn strip_item_ext_handles_non_ascii_names_without_panicking() {
    assert_eq!(strip_item_ext("Hi 😀!"), "Hi 😀!");
    assert_eq!(strip_item_ext("Résumé.eml"), "Résumé");
    assert_eq!(strip_item_ext("Invite.ics"), "Invite");
    assert_eq!(strip_item_ext("report"), "report");
    assert_eq!(strip_item_ext("invoice.2024"), "invoice.2024");
}

#[test]
fn downloads_dir_ends_with_downloads() {
    let home = Some("/home/me".to_string());
    let d = downloads_dir(&None, &home, &None, '/');
    assert_eq!(d, "/home/me/Downloads");
    let d = downloads_dir(&Some("C:\\Users\\me".to_string()), &None, &None, '\\');
    assert_eq!(d, "C:\\Users\\me\\Downloads");
    let d = downloads_dir(&None, &None, &None, '/');
    assert_eq!(d, "./Downloads");
}

#[test]
fn store_path_is_the_single_fixed_db_under_local_appdata() {
    let dir = lookxy_dir(&None, &Some("/home/me".to_string()), &None, '/');
    let s = store_path_for(&dir, '/');
    assert!(s.contains("lookxy"));
    assert!(s.ends_with("mail.db"));
    assert!(!s.contains("me_epam.com"));
    assert!(!s.contains('@'));
    assert_eq!(s, format!("{dir}/mail.db"));
    assert_eq!(dir, "/home/me/.local/share/lookxy");
    let dir = lookxy_dir(&Some("C:\\Local".to_string()), &None, &None, '\\');
    assert_eq!(dir, "C:\\Local\\lookxy");
}

#[test]
fn the_settings_file_is_under_the_base_that_is_set() {
    assert_eq!(config_file_path(&None, true, '/'), None);
    assert_eq!(
        config_file_path(&Some("/home/me".to_string()), false, '/'),
        Some("/home/me/.config/lookxy/config.json".to_string())
    );
    assert_eq!(
        config_file_path(&Some("C:\\Roaming".to_string()), true, '\\'),
        Some("C:\\Roaming\\lookxy\\config.json".to_string())
    );
}

#[test]
fn explicit_save_dest_is_confined_to_downloads() {
    let dl = downloads_dir(&None, &Some("/home/me".to_string()), &None, '/');
    for evil in [
        "/etc/cron.d/evil",
        "../../../../Startup/run.bat",
        "sub/dir/note.txt",
    ] {
        let resolved = resolve_explicit_dest(&dl, '/', evil);
        assert_eq!(Path::new(&resolved).parent().unwrap(), Path::new(&dl));
        assert!(!resolved.contains(".."));
    }
    let note = resolve_explicit_dest(&dl, '/', "sub/dir/note.txt");
    assert_eq!(Path::new(&note).file_name().unwrap().to_str(), Some("note.txt"));
}

#[test]
fn a_destination_is_its_last_name_in_the_downloads_directory() {
    let dl = "/home/me/Downloads";
    let to = |dest: &str| resolve_explicit_dest(dl, '/', dest);
    assert_eq!(to("sub/dir/note.txt"), "/home/me/Downloads/note.txt");
    assert_eq!(to("foo/"), "/home/me/Downloads/foo");
    assert_eq!(to("foo.txt/."), "/home/me/Downloads/foo.txt");
    assert_eq!(to("foo.txt/.//"), "/home/me/Downloads/foo.txt");
    for none in ["", ".", "./", "/", "/.", "..", "a/..", "a/../"] {
        assert_eq!(to(none), "/home/me/Downloads/attachment", "{none}");
    }
    assert_eq!(download_path(dl, '/', "a/b"), "/home/me/Downloads/a_b");
    assert_eq!(download_path("C:\\Users\\me", '\\', "x"), "C:\\Users\\me\\x");
}

#[test]
fn a_name_that_leaves_nothing_usable_is_replaced() {
    for empty in ["", " ", ".", " . "] {
        assert_eq!(sanitize_filename(empty), "attachment", "{empty:?}");
    }
    assert_eq!(sanitize_filename(".x"), ".x");
    assert_eq!(sanitize_filename(".."), "__");
}

fn strs(args: &[&str]) -> Vec<String> {
    args.iter().map(|s| s.to_string()).collect()
}

#[test]
fn cli_mode_mcp_flag_selects_mcp() {
    assert_eq!(cli_mode(&strs(&["--mcp"])), CliMode::Mcp);
}

#[test]
fn cli_mode_install_skill_selects_install_skill() {
    assert_eq!(
        cli_mode(&strs(&["install", "skill"])),
        CliMode::InstallSkill
    );
}

#[test]
fn cli_mode_defaults_to_tui() {
    assert_eq!(cli_mode(&[]), CliMode::Tui);
    assert_eq!(cli_mode(&strs(&["install"])), CliMode::Tui);
    assert_eq!(cli_mode(&strs(&["skill"])), CliMode::Tui);
    assert_eq!(cli_mode(&strs(&["some-other-flag"])), CliMode::Tui);
}

#[test]
fn cli_mode_mcp_flag_wins_regardless_of_position() {
    assert_eq!(cli_mode(&strs(&["install", "--mcp"])), CliMode::Mcp);
}

#[test]
fn skill_has_frontmatter_and_verbs() {
    assert!(SKILL_MD.starts_with("---\nname: lookxy\n"));
    assert!(SKILL_MD.contains("description:"));
    for needle in [
        "lookxy_mark",
        "mail.move",
        "AGWINTERM_SESSION_ID",
        "agwintermctl split on",
    ] {
        assert!(SKILL_MD.contains(needle), "skill missing {needle}");
    }
}

#[test]
fn signature_body_html_wraps_lines_and_is_empty_when_blank() {
    assert_eq!(signature_body_html(&signature_lines("")), "");
    assert_eq!(signature_body_html(&signature_lines("   ")), "");
    let html = signature_body_html(&signature_lines("Boris\nEPAM"));
    assert!(html.contains("<p>--</p>"));
    assert!(html.contains("<p>Boris</p>"));
    assert!(html.contains("<p>EPAM</p>"));
    assert_eq!(html, "<p></p><p>--</p><p>Boris</p><p>EPAM</p>");
}

#[test]
fn only_web_links_are_web_links() {
    assert!(is_web_url("https://x"));
    assert!(is_web_url("  HTTP://x"));
    assert!(!is_web_url("file:///etc/passwd"));
    assert!(!is_web_url(""));
}

#[test]
fn content_ids_are_compared_without_their_brackets() {
    assert_eq!(normalize_cid("<logo@x>"), normalize_cid("logo@x"));
    assert_ne!(normalize_cid("<logo@x>"), normalize_cid("other@x"));
}

#[test]
fn attendees_are_read_with_and_without_names() {
    assert_eq!(
        parse_attendee_pairs("Alice <alice@x>; bob@y"),
        vec![
            ("Alice".to_string(), "alice@x".to_string()),
            ("".to_string(), "bob@y".to_string())
        ]
    );
    assert!(parse_attendee_pairs("  ").is_empty());
}

#[test]
fn reminders_say_how_soon() {
    assert!(starts_in_phrase(0, 600, "1970-01-01T00:10:00Z", 0).contains("10"));
}
