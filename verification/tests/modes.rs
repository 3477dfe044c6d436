//! The two item domains end to end: building the stores, searching,
//! resolving, and the scenario walks the design calls for.

use picker::apps_mode::AppsMode;
use picker::echo_mode::EchoMode;
use picker::focus::{FocusController, ScrollDirective};
use picker::launcher_item::{Application as LauncherApp, LauncherItem, ShellCommand as LauncherShellCommand};
use picker::menu_item_model::{ActionError, Application, MenuItemModel, ShellCommand};

fn lines(v: &[&str]) -> Vec<String> {
    v.iter().map(|s| s.to_string()).collect()
}

#[test]
fn echo_mode_search_installs_ranked_mapping() {
    let mut mode = EchoMode::new(lines(&["Firefox", "Files", "Terminal"]));
    let change = mode.search("fire");
    assert_eq!((change.position, change.removed, change.added), (0, 0, 2));
    assert_eq!(mode.model.n_items(), 2);
    assert_eq!(mode.model.index_at(0), Some(0));
    assert_eq!(mode.model.index_at(1), Some(1));
    let item = mode.get_menu_item_model(0);
    assert_eq!(item.name().as_str(), "Firefox");
}

#[test]
fn echo_mode_filled_model_shows_store_order() {
    let mut mode = EchoMode::new(lines(&["c", "a", "b"]));
    let change = mode.filled_model();
    assert_eq!((change.position, change.removed, change.added), (0, 0, 3));
    for p in 0..3 {
        assert_eq!(mode.model.index_at(p), Some(p));
    }
    assert_eq!(mode.get_menu_item_model(1).name().as_str(), "a");
}

#[test]
fn empty_store_scenario() {
    // empty store: empty projection, no focus, moves are no-ops, nothing to
    // confirm
    let mut mode = EchoMode::new(Vec::new());
    let change = mode.search("anything");
    assert_eq!(change.added, 0);
    assert_eq!(mode.model.n_items(), 0);
    let mut focus = FocusController::new(mode.model.n_items());
    assert_eq!(focus.position(), None);
    let out = focus.move_focus(1, mode.model.n_items());
    assert_eq!(out.directive, None);
    assert_eq!(focus.position(), None);
    // confirm resolves nothing: there is no focused position and no mapping
    assert_eq!(mode.model.index_at(0), None);
}

#[test]
fn last_row_overflow_scenario() {
    // five items, focus on the last: one step further only scrolls
    let mut mode = EchoMode::new(lines(&["a", "b", "c", "d", "e"]));
    mode.filled_model();
    let len = mode.model.n_items();
    assert_eq!(len, 5);
    let mut focus = FocusController::new(len);
    focus.move_focus(4, len);
    assert_eq!(focus.position(), Some(4));
    let out = focus.move_focus(1, len);
    assert_eq!(out.directive, Some(ScrollDirective::ToMaximumExtent));
    // confirming in this state still resolves the focused row
    let p = focus.position().unwrap();
    let orig = mode.model.index_at(p).unwrap();
    assert_eq!(mode.get_menu_item_model(orig).name().as_str(), "e");
}

#[test]
fn apps_mode_search_and_resolve() {
    let apps = vec![
        Application::new("Firefox".to_string(), String::new(), "firefox %u".to_string()),
        Application::new("Files".to_string(), String::new(), "nautilus".to_string()),
        Application::new("Terminal".to_string(), String::new(), "term".to_string()),
    ];
    let mut mode = AppsMode::new(apps);
    let change = mode.search("fire");
    assert_eq!(change.added, 2);
    let first = mode.model.index_at(0).unwrap();
    match mode.get_menu_item_model(first) {
        MenuItemModel::Application(a) => {
            assert_eq!(a.name, "Firefox");
            assert_eq!(a.exec_line, "firefox %u");
        }
        _ => panic!("expected an application entry"),
    }
}

#[test]
fn store_names_are_lowercased_once_at_construction() {
    // a case mismatch scores zero under Jaro-Winkler, so these pass only if
    // the store's keys were folded at construction and the query at search
    let mut mode = EchoMode::new(lines(&["VIM"]));
    let c = mode.search("vim");
    assert_eq!(c.added, 1);
    assert_eq!(mode.model.index_at(0), Some(0));
    let c2 = mode.search("VIM");
    assert_eq!(c2.added, 1);
}

#[test]
fn requery_replaces_mapping_wholesale() {
    let mut mode = EchoMode::new(lines(&["alpha", "beta", "alps"]));
    let c1 = mode.search("alp");
    assert!(c1.added >= 1);
    let c2 = mode.search("beta");
    assert_eq!(c2.removed, c1.added);
    assert_eq!(mode.model.index_at(0), Some(1));
}

#[test]
fn menu_item_names_cover_all_variants() {
    let app = MenuItemModel::Application(Application::new(
        "Editor".to_string(),
        String::new(),
        "ed".to_string(),
    ));
    assert_eq!(app.name().as_str(), "Editor");
    let cmd = MenuItemModel::Command(ShellCommand::new("ls -l".to_string()));
    assert_eq!(cmd.name().as_str(), "ls -l");
    let text = MenuItemModel::String("a line".to_string());
    assert_eq!(text.name().as_str(), "a line");
    assert!(matches!(MenuItemModel::default(), MenuItemModel::Empty));
}

#[test]
fn launcher_item_names_cover_all_variants() {
    let app = LauncherItem::Application(LauncherApp::new(
        "Editor".to_string(),
        "desc".to_string(),
        "ed".to_string(),
    ));
    assert_eq!(app.name().as_str(), "Editor");
    let cmd = LauncherItem::Command(LauncherShellCommand::new("ls".to_string()));
    assert_eq!(cmd.name().as_str(), "ls");
    let text = LauncherItem::String("line".to_string());
    assert_eq!(text.name().as_str(), "line");
    assert!(matches!(LauncherItem::default(), LauncherItem::Empty));
}

#[test]
fn action_error_carries_its_parts() {
    let e = ActionError::new(
        "permission denied".to_string(),
        "Failed to launch application".to_string(),
        "firefox".to_string(),
    );
    assert_eq!(e.cause().as_str(), "permission denied");
    assert_eq!(e.error().as_str(), "Failed to launch application");
    assert_eq!(e.command().as_str(), "firefox");
}
