use polykill::fstree::{FsEntry, FsNode};
use polykill::menu::{
    apply_color256, build_menu_items, create_label, menu_title, plan_menu_layout, sgr_seq_wrap,
    Menu, MenuAction, MenuEvent, MenuItem,
};
use polykill::project::{Project, ProjectType, RemoveOutcome};

fn file(size: u64) -> FsNode {
    FsNode::File { size }
}

fn dir(entries: Vec<(&str, FsNode)>) -> FsNode {
    FsNode::Dir {
        modified_days: Some(1),
        entries: entries
            .into_iter()
            .map(|(name, node)| FsEntry { name: String::from(name), node })
            .collect(),
    }
}

fn sample_project(name: &str) -> Project {
    let d = dir(vec![("target", dir(vec![("x", file(100))]))]);
    Project::cargo(vec![String::from(name)], &d)
}

fn sample_items(n: usize) -> Vec<MenuItem> {
    let mut items = Vec::new();
    for i in 0..n {
        let p = sample_project(&format!("p{}", i));
        items.push(MenuItem::new(&format!("row {}", i), MenuAction::Delete(p)));
    }
    items
}

#[test]
fn pagination_and_edge_navigation() {
    // Terminal height 11, not verbose: 11 - 6 = 5 items per page; with 12
    // items that makes 3 pages.
    let mut menu = Menu::new(sample_items(12), 0, 0, false, false, 11);
    assert_eq!(menu.items_per_page, 5);
    assert_eq!(menu.num_pages, 3);
    assert_eq!(menu.selected_page, 0);
    assert_eq!(menu.selected_item, 0);
    // Down to the last row of the first page.
    for _ in 0..4 {
        menu.navigate(MenuEvent::Down);
    }
    assert_eq!(menu.selected_item, 4);
    assert_eq!(menu.selected_page, 0);
    // Down at the bottom of the page advances to the next page, row 0.
    menu.navigate(MenuEvent::Down);
    assert_eq!(menu.selected_page, 1);
    assert_eq!(menu.selected_item, 5);
    // Up at the top of a page goes back to the previous page's last row.
    menu.navigate(MenuEvent::Up);
    assert_eq!(menu.selected_page, 0);
    assert_eq!(menu.selected_item, 4);
}

#[test]
fn page_switching() {
    let mut menu = Menu::new(sample_items(12), 0, 0, false, false, 11);
    menu.navigate(MenuEvent::Right);
    assert_eq!(menu.selected_page, 1);
    assert_eq!(menu.selected_item, 5);
    assert_eq!(menu.page_start, 5);
    assert_eq!(menu.page_end, 9);
    menu.navigate(MenuEvent::Right);
    assert_eq!(menu.selected_page, 2);
    assert_eq!(menu.page_start, 10);
    assert_eq!(menu.page_end, 11);
    // At the last page, Right changes nothing.
    menu.navigate(MenuEvent::Right);
    assert_eq!(menu.selected_page, 2);
    menu.navigate(MenuEvent::Left);
    assert_eq!(menu.selected_page, 1);
    assert_eq!(menu.selected_item, 5);
}

#[test]
fn edges_do_not_move() {
    let mut menu = Menu::new(sample_items(3), 0, 0, false, false, 40);
    assert_eq!(menu.num_pages, 1);
    menu.navigate(MenuEvent::Up);
    assert_eq!(menu.selected_item, 0);
    menu.navigate(MenuEvent::Left);
    assert_eq!(menu.selected_page, 0);
    for _ in 0..5 {
        menu.navigate(MenuEvent::Down);
    }
    assert_eq!(menu.selected_item, 2);
    menu.navigate(MenuEvent::Other);
    assert_eq!(menu.selected_item, 2);
}

#[test]
fn tiny_terminal_still_pages() {
    let menu = Menu::new(sample_items(2), 0, 0, false, true, 3);
    assert_eq!(menu.items_per_page, 1);
    assert_eq!(menu.num_pages, 2);
}

#[test]
fn color_wrapping() {
    assert_eq!(apply_color256("hi", 42), "\x1b[38;5;42mhi\x1b[39m");
    assert_eq!(sgr_seq_wrap("x", 1, 22), "\x1b[1mx\x1b[22m");
}

#[test]
fn labels_hold_all_columns() {
    let p = sample_project("demo");
    let label = create_label(&p, 10, 8, false);
    assert!(label.starts_with("demo      "));
    assert!(label.contains("Cargo"));
    assert!(label.contains("1 days"));
    assert!(label.contains("100  B"));
}

#[test]
fn title_lines_are_aligned() {
    let t = menu_title(8, 6);
    let expected = format!(
        "  {:<8}{:<6}{:>10}{:>15}\n  {:<8}{:<6}{:>10}{:>15}",
        "Path", "Type", "Last Mod.", "Disk Savings", "----", "----", "----", "----"
    );
    assert_eq!(t, expected);
}

#[test]
fn layout_keeps_wide_padding_on_wide_screens() {
    let projects = vec![sample_project("abc")];
    // Path "abc" is 3 wide, type "Cargo" 5 wide: row width is
    // (3+10) + (5+3) + 10 + 15 + 2 = 48.
    let (pw, tw, trunc) = plan_menu_layout(&projects, 120);
    assert_eq!(pw, 13);
    assert_eq!(tw, 8);
    assert!(!trunc);
    // Narrow screen: smaller padding, still no truncation while the
    // narrow row fits.
    let (pw, tw, trunc) = plan_menu_layout(&projects, 40);
    assert_eq!(pw, 5);
    assert_eq!(tw, 7);
    assert!(!trunc);
}

#[test]
fn layout_truncates_on_very_narrow_screens() {
    let d = dir(vec![]);
    let long = Project::cargo(
        vec!["a", "b", "c", "d", "e", "fghij"].into_iter().map(String::from).collect(),
        &d,
    );
    // Full path "a/b/c/d/e/fghij" is 15 wide; truncated "../d/e/fghij" is
    // 12 wide. Row width 15+10+5+3+27 = 60; screen 45 is narrower even
    // after dropping the 9 columns of padding, so paths are truncated.
    let (pw, _tw, trunc) = plan_menu_layout(&vec![long], 45);
    assert!(trunc);
    assert_eq!(pw, 14);
}

#[test]
fn run_action_refreshes_row_and_message() {
    let before = dir(vec![("target", dir(vec![("x", file(3000))]))]);
    let p = Project::cargo(vec![String::from("proj")], &before);
    let label = create_label(&p, 10, 8, false);
    let items = vec![MenuItem::new(&label, MenuAction::Delete(p))];
    let mut menu = Menu::new(items, 10, 8, false, true, 30);
    let after = dir(vec![]);
    menu.run_action(0, &vec![RemoveOutcome::Removed], &after);
    assert_eq!(menu.message, Some(String::from("Removed proj/target")));
    match &menu.items[0].action {
        MenuAction::Delete(q) => {
            assert_eq!(q.rm_size, 0);
            assert_eq!(q.rm_size_str, "0  B");
            assert_eq!(q.project_type, ProjectType::Cargo);
        },
    }
    assert!(menu.items[0].label.contains("0  B"));
}

#[test]
fn set_working_shows_placeholder() {
    let before = dir(vec![("target", dir(vec![("x", file(3000))]))]);
    let p = Project::cargo(vec![String::from("proj")], &before);
    let items = vec![MenuItem::new("r", MenuAction::Delete(p))];
    let mut menu = Menu::new(items, 10, 8, false, false, 30);
    menu.set_working();
    assert!(menu.items[0].label.contains("working..."));
}

#[test]
fn render_is_exact_for_a_single_row() {
    let p = sample_project("p");
    let items = vec![MenuItem::new("L", MenuAction::Delete(p))];
    let menu = Menu::new(items, 0, 0, false, false, 30);
    let frame = menu.render();
    assert_eq!(frame, "\x1b[H\x1b[J\x1b[H\x1b[1m> L\x1b[22m\nPage 1 of 1\n");
}

#[test]
fn label_is_exact() {
    let p = sample_project("demo");
    let label = create_label(&p, 10, 8, false);
    let expected = format!(
        "{:<10}\x1b[38;5;221m{:<8}\x1b[39m\x1b[38;5;2m{:>10}\x1b[39m\x1b[38;5;2m{:>15}\x1b[39m",
        "demo", "Cargo", "1 days", "100  B"
    );
    assert_eq!(label, expected);
}

#[test]
fn menu_item_keeps_label_and_action() {
    let p = sample_project("x");
    let item = MenuItem::new("lbl", MenuAction::Delete(p));
    assert_eq!(item.label, "lbl");
    match item.action {
        MenuAction::Delete(q) => assert_eq!(q.path, vec![String::from("x")]),
    }
}

#[test]
fn render_shows_page_and_rows() {
    let mut menu = Menu::new(sample_items(12), 0, 0, false, false, 11);
    menu.title("HEADER");
    let frame = menu.render();
    assert!(frame.contains("HEADER"));
    assert!(frame.contains("Page 1 of 3"));
    assert!(frame.contains("> "));
    assert!(frame.contains("row 0"));
    assert!(frame.contains("row 4"));
    assert!(!frame.contains("row 5"));
    menu.navigate(MenuEvent::Right);
    let frame = menu.render();
    assert!(frame.contains("Page 2 of 3"));
    assert!(frame.contains("row 5"));
    assert!(!frame.contains("row 4"));
}
