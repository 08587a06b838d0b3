use zellij_flash::source_pane::{pick, tab_scope, PaneManifest, PaneRecord, TabPanes};

fn terminal(id: u32) -> PaneRecord {
    PaneRecord { id, is_plugin: false, is_focused: false, is_floating: false, is_suppressed: false }
}

fn plugin(id: u32, focused: bool) -> PaneRecord {
    PaneRecord { id, is_plugin: true, is_focused: focused, is_floating: false, is_suppressed: false }
}

fn focused(mut p: PaneRecord) -> PaneRecord {
    p.is_focused = true;
    p
}

fn floating(mut p: PaneRecord) -> PaneRecord {
    p.is_floating = true;
    p
}

fn suppressed(mut p: PaneRecord) -> PaneRecord {
    p.is_suppressed = true;
    p
}

fn manifest(tabs: Vec<(usize, Vec<PaneRecord>)>) -> PaneManifest {
    PaneManifest {
        tabs: tabs.into_iter().map(|(position, panes)| TabPanes { position, panes }).collect(),
    }
}

#[test]
fn focused_terminal_wins() {
    let m = manifest(vec![(0, vec![terminal(1), focused(terminal(2)), plugin(3, true)])]);
    assert_eq!(pick(&m, Some(1), Some(0)), Some(2));
}

#[test]
fn last_focused_terminal_wins_when_several() {
    let m = manifest(vec![(0, vec![focused(terminal(1)), focused(terminal(2))])]);
    assert_eq!(pick(&m, None, Some(0)), Some(2));
}

#[test]
fn hint_wins_over_tiers_three_and_four_when_present() {
    let m = manifest(vec![(0, vec![terminal(1), terminal(7), plugin(9, true)])]);
    assert_eq!(pick(&m, Some(7), Some(0)), Some(7));
}

#[test]
fn hint_absent_from_manifest_is_ignored() {
    let m = manifest(vec![(0, vec![terminal(1), terminal(7)])]);
    assert_eq!(pick(&m, Some(42), Some(0)), Some(1));
}

#[test]
fn hint_naming_a_plugin_is_ignored() {
    let m = manifest(vec![(0, vec![plugin(5, false), terminal(6)])]);
    assert_eq!(pick(&m, Some(5), Some(0)), Some(6));
}

#[test]
fn first_tiled_unsuppressed_wins_over_any() {
    let m = manifest(vec![(0, vec![floating(terminal(1)), suppressed(terminal(2)), terminal(3)])]);
    assert_eq!(pick(&m, None, Some(0)), Some(3));
}

#[test]
fn any_terminal_as_last_resort() {
    let m = manifest(vec![(0, vec![plugin(1, false), floating(terminal(2)), suppressed(terminal(3))])]);
    assert_eq!(pick(&m, None, Some(0)), Some(2));
}

#[test]
fn no_terminal_gives_none() {
    let m = manifest(vec![(0, vec![plugin(1, true), plugin(2, false)])]);
    assert_eq!(pick(&m, Some(1), Some(0)), None);
    assert_eq!(pick(&manifest(vec![]), None, None), None);
}

#[test]
fn active_tab_scopes_the_choice() {
    let m = manifest(vec![
        (0, vec![focused(terminal(1))]),
        (1, vec![terminal(2), plugin(3, true)]),
    ]);
    assert_eq!(pick(&m, None, Some(1)), Some(2));
    // The hint from another tab is not a pane of this one.
    assert_eq!(pick(&m, Some(1), Some(1)), Some(2));
    assert_eq!(pick(&m, None, Some(0)), Some(1));
}

#[test]
fn unknown_or_missing_tab_considers_all_tabs_in_order() {
    let m = manifest(vec![(3, vec![plugin(1, true)]), (5, vec![terminal(4), terminal(8)])]);
    assert_eq!(pick(&m, None, None), Some(4));
    assert_eq!(pick(&m, None, Some(9)), Some(4));
    let ids: Vec<u32> = tab_scope(&m, Some(9)).iter().map(|p| p.id).collect();
    assert_eq!(ids, vec![1, 4, 8]);
    let ids: Vec<u32> = tab_scope(&m, Some(5)).iter().map(|p| p.id).collect();
    assert_eq!(ids, vec![4, 8]);
}
