use tab_shell::tabs::{CloseRequest, TabError, TabInfo, TabManager};
use tab_shell::ids::{new_pool_label, new_tab_id, tab_url};

fn tab(id: &str, kind: &str, path: Option<&str>, title: &str) -> TabInfo {
    TabInfo {
        id: id.to_string(),
        tab_type: kind.to_string(),
        paper_path: path.map(|p| p.to_string()),
        title: title.to_string(),
    }
}

fn session(ids: &[&str]) -> TabManager {
    let mut m = TabManager::new();
    for id in ids {
        m.open_tab(tab(id, "home", None, "Library"));
    }
    m
}

fn ids(m: &TabManager) -> Vec<String> {
    m.get_state().tabs.iter().map(|t| t.id.clone()).collect()
}

fn active(m: &TabManager) -> String {
    m.get_state().active_tab_id
}

#[test]
fn open_then_close_first_tab() {
    let mut m = TabManager::new();
    m.open_tab(TabInfo::home("t0".to_string()));
    assert_eq!(m.tab_count(), 1);
    assert_eq!(active(&m), "t0");
    assert_eq!(m.active_to_hide(), Some("t0".to_string()));
    m.open_tab(tab("t1", "paper", Some("/a.pdf"), "Doc A"));
    assert_eq!(m.tab_count(), 2);
    assert_eq!(active(&m), "t1");
    let plan = m.close_tab("t0");
    assert!(plan.proceed);
    assert_eq!(plan.activate, None);
    assert_eq!(m.tab_count(), 1);
    assert_eq!(active(&m), "t1");
    let left = m.get_tab_at_index(0).unwrap();
    assert_eq!(left.title, "Doc A");
    assert_eq!(left.paper_path, Some("/a.pdf".to_string()));
}

#[test]
fn opening_many_tabs_counts_them_and_activates_the_last() {
    let mut m = session(&["t0"]);
    for n in 1..=5 {
        let id = format!("n{}", n);
        m.open_tab(tab(&id, "home", None, "Library"));
        assert_eq!(m.tab_count(), n + 1);
        assert_eq!(active(&m), id);
    }
}

#[test]
fn closing_inactive_tab_keeps_active() {
    let mut m = session(&["a", "b", "c"]);
    let plan = m.close_tab("a");
    assert!(plan.proceed);
    assert!(plan.activate.is_none());
    assert_eq!(active(&m), "c");
    assert_eq!(ids(&m), vec!["b", "c"]);
}

#[test]
fn closing_active_middle_tab_activates_right_neighbour() {
    let mut m = session(&["a", "b", "c"]);
    m.switch_tab("b").unwrap();
    let plan = m.close_tab("b");
    assert_eq!(plan.activate, Some("c".to_string()));
    assert_eq!(active(&m), "c");
    assert_eq!(m.get_active_index(), Some(1));
}

#[test]
fn closing_active_last_tab_activates_new_last() {
    let mut m = session(&["a", "b", "c"]);
    let plan = m.close_tab("c");
    assert_eq!(plan.activate, Some("b".to_string()));
    assert_eq!(m.get_active_index(), Some(1));
    assert_eq!(ids(&m), vec!["a", "b"]);
}

#[test]
fn closing_sole_tab_does_nothing() {
    let mut m = session(&["a"]);
    let plan = m.close_tab("a");
    assert!(!plan.proceed);
    assert!(plan.activate.is_none());
    assert_eq!(m.tab_count(), 1);
    assert_eq!(active(&m), "a");
}

#[test]
fn closing_unknown_tab_changes_nothing() {
    let mut m = session(&["a", "b"]);
    let plan = m.close_tab("zz");
    assert!(plan.proceed);
    assert!(plan.activate.is_none());
    assert_eq!(ids(&m), vec!["a", "b"]);
    assert_eq!(active(&m), "b");
}

#[test]
fn next_then_prev_returns_to_start() {
    for start in 0..3 {
        let mut m = session(&["a", "b", "c"]);
        m.switch_tab_by_index(start).unwrap();
        let before = active(&m);
        m.next_tab().unwrap();
        m.prev_tab().unwrap();
        assert_eq!(active(&m), before);
        m.prev_tab().unwrap();
        m.next_tab().unwrap();
        assert_eq!(active(&m), before);
    }
}

#[test]
fn next_and_prev_wrap_around() {
    let mut m = session(&["a", "b", "c"]);
    let sw = m.next_tab().unwrap();
    assert_eq!(sw.show, "a");
    assert_eq!(sw.hide, Some("c".to_string()));
    assert_eq!(active(&m), "a");
    let sw = m.prev_tab().unwrap();
    assert_eq!(sw.show, "c");
    assert_eq!(active(&m), "c");
}

#[test]
fn next_and_prev_with_one_tab_do_nothing() {
    let mut m = session(&["a"]);
    assert!(m.next_tab().is_none());
    assert!(m.prev_tab().is_none());
    assert_eq!(active(&m), "a");
}

#[test]
fn switch_by_index_out_of_bounds() {
    let mut m = session(&["a", "b"]);
    assert_eq!(m.switch_tab_by_index(2).err(), Some(TabError::IndexOutOfBounds));
    assert_eq!(ids(&m), vec!["a", "b"]);
    assert_eq!(active(&m), "b");
}

#[test]
fn switch_to_unknown_tab_is_not_found() {
    let mut m = session(&["a", "b"]);
    assert_eq!(m.switch_tab("x").err(), Some(TabError::NotFound));
    assert_eq!(active(&m), "b");
}

#[test]
fn switch_hides_previous_and_shows_target() {
    let mut m = session(&["a", "b"]);
    let sw = m.switch_tab("a").unwrap();
    assert_eq!(sw.show, "a");
    assert_eq!(sw.hide, Some("b".to_string()));
    let sw = m.switch_tab("a").unwrap();
    assert_eq!(sw.hide, None);
}

#[test]
fn retitling_changes_only_that_tab() {
    let mut m = session(&["a", "b"]);
    m.update_current_tab_title("a", "Notes".to_string());
    assert_eq!(m.get_tab("a").unwrap().title, "Notes");
    assert_eq!(m.get_tab("b").unwrap().title, "Library");
    m.update_current_tab_title("zz", "Other".to_string());
    assert_eq!(m.get_tab("a").unwrap().title, "Notes");
}

#[test]
fn close_shortcut_closes_window_or_active_tab() {
    let mut m = session(&["a"]);
    assert!(matches!(m.close_tab_or_window(), CloseRequest::Window));
    let mut m = session(&["a", "b"]);
    match m.close_tab_or_window() {
        CloseRequest::Tab(plan) => assert_eq!(plan.activate, Some("a".to_string())),
        _ => panic!("expected a tab to close"),
    }
    assert_eq!(ids(&m), vec!["a"]);
    let mut m = TabManager::new();
    assert!(m.close_active_tab().is_none());
}

#[test]
fn primitive_operations() {
    let mut m = TabManager::new();
    assert_eq!(m.active_to_hide(), None);
    m.add_tab(tab("a", "home", None, "Library"));
    m.add_tab(tab("b", "home", None, "Library"));
    assert_eq!(m.get_active_index(), None);
    m.set_active("b");
    assert_eq!(m.get_active_index(), Some(1));
    assert_eq!(m.remove_tab("a"), Some(0));
    assert_eq!(m.remove_tab("a"), None);
    assert!(m.get_tab_at_index(1).is_none());
    assert!(m.get_tab("a").is_none());
}

#[test]
fn error_messages() {
    assert_eq!(TabError::NotFound.message(), "Tab not found");
    assert_eq!(TabError::IndexOutOfBounds.message(), "Tab index out of bounds");
    assert_eq!(TabError::HostUnavailable.message(), "Main window not found");
}

#[test]
fn tab_urls() {
    assert_eq!(tab_url("home", None), "/tab?type=home");
    assert_eq!(
        tab_url("paper", Some("/a b/é.md")),
        "/tab?type=paper&path=%2Fa%20b%2F%C3%A9.md"
    );
}

#[test]
fn fresh_ids_have_prefixes_and_differ() {
    let a = new_tab_id();
    let b = new_tab_id();
    assert!(a.starts_with("tab-"));
    assert_eq!(a.len(), 40);
    assert_eq!(&a[12..13], "-");
    assert_eq!(new_pool_label().len(), 41);
    assert_ne!(a, b);
    assert!(new_pool_label().starts_with("pool-"));
}
