use rusic::sidebar::{move_down, move_up, resize_sidebar, sidebar_items, sidebar_width, top_menu_keys};

fn keys(v: &[&str]) -> Vec<String> {
    v.iter().map(|s| s.to_string()).collect()
}

#[test]
fn sidebar_keeps_saved_order_then_the_rest() {
    let menu = top_menu_keys();
    assert_eq!(menu.len(), 8);
    let saved = keys(&["favorites", "gone", "home"]);
    assert_eq!(
        sidebar_items(&saved, &menu),
        keys(&["favorites", "home", "search", "library", "albums", "artists", "playlists", "Activity"])
    );
    assert_eq!(sidebar_items(&vec![], &menu), menu);
}

#[test]
fn saved_entries_move_by_one() {
    let mut order = keys(&["a", "b", "c"]);
    move_up(&mut order, 2);
    assert_eq!(order, keys(&["a", "c", "b"]));
    move_up(&mut order, 0);
    assert_eq!(order, keys(&["a", "c", "b"]));
    move_down(&mut order, 0);
    assert_eq!(order, keys(&["c", "a", "b"]));
    move_down(&mut order, 2);
    move_down(&mut order, 7);
    assert_eq!(order, keys(&["c", "a", "b"]));
}

#[test]
fn dragging_the_edge_collapses_and_opens() {
    assert_eq!(resize_sidebar(false, 240, 100), (true, 240));
    assert_eq!(resize_sidebar(false, 240, 300), (false, 300));
    assert_eq!(resize_sidebar(false, 240, 500), (false, 240));
    assert_eq!(resize_sidebar(true, 240, 170), (true, 240));
    assert_eq!(resize_sidebar(true, 240, 200), (false, 200));
    assert_eq!(sidebar_width(true, 240), 72);
    assert_eq!(sidebar_width(false, 240), 240);
}
