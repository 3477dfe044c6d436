//! Desktop-entry handling: field-code stripping, entry filtering through the
//! real parser, and the search-directory computation.

use picker::apps_mode::{collect_applications, desktop_search_paths, strip_placeholders};

fn lines(v: &[&str]) -> Vec<String> {
    v.iter().map(|s| s.to_string()).collect()
}

#[test]
fn strip_removes_each_field_code() {
    assert_eq!(strip_placeholders("prog %f --x %U"), "prog  --x ");
    assert_eq!(strip_placeholders("run %F %u %d %D %n %N %i %c %k %v %m"), "run           ");
    assert_eq!(strip_placeholders("plain command"), "plain command");
    assert_eq!(strip_placeholders(""), "");
}

#[test]
fn strip_passes_run_in_a_fixed_order() {
    // removing the lowercase code first can expose an uppercase one
    assert_eq!(strip_placeholders("%%fF"), "");
    // a lone percent sign or an unknown code survives
    assert_eq!(strip_placeholders("50% %z"), "50% %z");
}

#[test]
fn collect_keeps_displayable_applications_with_commands() {
    let contents = lines(&[
        "[Desktop Entry]\nType=Application\nName=Firefox\nExec=firefox %u\n",
        "[Desktop Entry]\nType=Application\nName=Hidden\nNoDisplay=true\nExec=hid\n",
        "[Desktop Entry]\nType=Application\nName=NoCommand\n",
        "[Desktop Entry]\nType=Link\nName=Shortcut\nURL=file:///tmp\n",
        "not a desktop file at all",
        "[Desktop Entry]\nType=Application\nName=Shown\nNoDisplay=false\nExec=shown\n",
    ]);
    let apps = collect_applications(&contents);
    assert_eq!(apps.len(), 2);
    assert_eq!(apps[0].name, "Firefox");
    assert_eq!(apps[0].exec_line, "firefox %u");
    assert_eq!(apps[1].name, "Shown");
    assert_eq!(apps[1].exec_line, "shown");
}

#[test]
fn search_paths_from_explicit_settings() {
    let r = desktop_search_paths(
        Some("/data".to_string()),
        Some("/home/u".to_string()),
        Some("/a:/b".to_string()),
    );
    assert_eq!(
        r,
        lines(&[
            "/data/applications",
            "/a/applications",
            "/b/applications",
            "/var/lib/flatpak/exports/share/applications",
            "/home/u/.local/share/flatpak/exports/share/applications",
        ])
    );
}

#[test]
fn search_paths_fall_back_to_defaults() {
    let r = desktop_search_paths(None, None, None);
    assert_eq!(
        r,
        lines(&[
            "/.local/share/applications",
            "/usr/local/share/applications",
            "/usr/share/applications",
            "/var/lib/flatpak/exports/share/applications",
        ])
    );
}

#[test]
fn search_paths_drop_duplicates_keeping_first_occurrence() {
    let r = desktop_search_paths(
        Some("/usr/share".to_string()),
        None,
        Some("/usr/share:/usr/share".to_string()),
    );
    assert_eq!(
        r,
        lines(&[
            "/usr/share/applications",
            "/var/lib/flatpak/exports/share/applications",
        ])
    );
}

#[test]
fn search_paths_join_handles_trailing_slash() {
    let r = desktop_search_paths(Some("/data/".to_string()), None, Some("".to_string()));
    assert_eq!(
        r,
        lines(&[
            "/data/applications",
            "applications",
            "/var/lib/flatpak/exports/share/applications",
        ])
    );
}
