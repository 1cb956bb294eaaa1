use candadolib::tui::{
    cell_widths, column_maxima, constraint_len_calculator, narrow, widest_of, TableApp, TableKey,
};
use candadolib::Entry;

fn text(s: &str) -> String {
    s.to_string()
}

fn entry(id: &str, service: &str, password: &str) -> Entry {
    Entry::init(text(id), text(service), text("a@b.com"), text(password), text(""), text("url"))
}

fn three() -> TableApp {
    TableApp::new(vec![entry("id1", "github", "pw1"), entry("id2", "bank", "pw2"), entry("id3", "x", "pw3")])
}

#[test]
fn a_new_table_selects_the_first_row() {
    let app = three();
    assert_eq!(app.selected, Some(0));
    assert_eq!(app.scroll, 0);
    assert!(!app.unlocked);
    assert!(!app.exit);
    assert_eq!(app.items.len(), 3);
    assert_eq!(app.scroll_length(), 8);
    assert_eq!(TableApp::new(vec![]).scroll_length(), 2);
}

#[test]
fn the_selection_moves_down_and_wraps() {
    let mut app = three();
    app.next_row();
    assert_eq!((app.selected, app.scroll), (Some(1), 2));
    app.next_row();
    assert_eq!((app.selected, app.scroll), (Some(2), 4));
    app.next_row();
    assert_eq!((app.selected, app.scroll), (Some(0), 0));
    app.selected = None;
    app.next_row();
    assert_eq!(app.selected, Some(0));
    app.selected = Some(17);
    app.next_row();
    assert_eq!(app.selected, Some(0));
}

#[test]
fn the_selection_moves_up_and_wraps() {
    let mut app = three();
    app.previous_row();
    assert_eq!((app.selected, app.scroll), (Some(2), 4));
    app.previous_row();
    assert_eq!((app.selected, app.scroll), (Some(1), 2));
    app.previous_row();
    assert_eq!((app.selected, app.scroll), (Some(0), 0));
    app.selected = None;
    app.previous_row();
    assert_eq!(app.selected, Some(0));
}

#[test]
fn an_empty_table_keeps_the_first_row_selected() {
    let mut app = TableApp::new(vec![]);
    app.next_row();
    assert_eq!(app.selected, Some(0));
    app.previous_row();
    assert_eq!(app.selected, Some(0));
}

#[test]
fn a_row_is_selected_with_its_scroll_position() {
    let mut app = three();
    app.select(2);
    assert_eq!((app.selected, app.scroll), (Some(2), 4));
    app.select(usize::MAX);
    assert_eq!((app.selected, app.scroll), (Some(usize::MAX), usize::MAX));
}

#[test]
fn keys_move_reveal_and_quit() {
    let mut app = three();
    app.handle_key(TableKey::Down);
    assert_eq!(app.selected, Some(1));
    app.handle_key(TableKey::Other);
    assert_eq!((app.selected, app.unlocked, app.exit), (Some(1), false, false));
    app.handle_key(TableKey::Reveal);
    assert!(app.unlocked);
    app.handle_key(TableKey::Up);
    assert_eq!(app.selected, Some(0));
    app.handle_key(TableKey::Reveal);
    assert!(!app.unlocked);
    app.handle_key(TableKey::Quit);
    assert!(app.exit);
    app.exit();
    assert!(app.exit);
}

#[test]
fn a_password_shows_only_where_it_is_revealed() {
    let mut app = three();
    for row in 0..3 {
        for column in 0..6 {
            assert_eq!(app.is_masked(row, column), column == 3);
        }
    }
    assert_eq!(app.cell_text(0, 3), "\n************\n");
    assert_eq!(app.cell_text(1, 1), "\nbank\n");
    assert_eq!(app.cell_text(2, 0), "\nid3\n");
    assert_eq!(app.cell_text(2, 4), "\n\n");
    assert_eq!(app.cell_text(2, 5), "\nurl\n");
    app.handle_key(TableKey::Reveal);
    assert_eq!(app.cell_text(0, 3), "\npw1\n");
    assert_eq!(app.cell_text(1, 3), "\n************\n");
    app.next_row();
    assert_eq!(app.cell_text(0, 3), "\n************\n");
    assert_eq!(app.cell_text(1, 3), "\npw2\n");
    app.selected = None;
    assert!(!app.is_masked(0, 3));
    assert!(app.is_masked(1, 3));
}

#[test]
fn columns_are_as_wide_as_their_widest_text() {
    let app = three();
    assert_eq!(app.longest_item_lens, (3, 6, 7, 3, 0, 3));
    assert_eq!(constraint_len_calculator(&vec![]), (0, 0, 0, 0, 0, 0));
    // a service of several lines counts by its widest line; wide characters count double
    let items = vec![entry("a", "one\nthree\nxy", "日本語"), entry("bcd", "", "pw")];
    assert_eq!(constraint_len_calculator(&items), (3, 5, 7, 6, 0, 3));
    assert_eq!(cell_widths(&items[0]), [1, 5, 7, 6, 0, 3]);
    assert_eq!(widest_of(&vec![text("ab"), text(""), text("abcd"), text("abc")]), 4);
    assert_eq!(widest_of(&vec![]), 0);
}

#[test]
fn a_width_is_taken_by_its_low_bits() {
    assert_eq!(narrow(0), 0);
    assert_eq!(narrow(65535), 65535);
    assert_eq!(narrow(65536), 0);
    assert_eq!(narrow(65536 + 7), 7);
    let long = "x".repeat(65536 + 2);
    assert_eq!(constraint_len_calculator(&vec![entry(&long, "s", "p")]).0, 2);
}

#[test]
fn the_greatest_width_of_each_column_is_taken() {
    assert_eq!(column_maxima(&vec![]), [0, 0, 0, 0, 0, 0]);
    assert_eq!(column_maxima(&vec![[1, 2, 3, 4, 5, 6]]), [1, 2, 3, 4, 5, 6]);
    assert_eq!(
        column_maxima(&vec![[1, 9, 3, 0, 5, 6], [7, 2, 3, 0, 4, 8], [0, 0, 0, 0, 0, usize::MAX]]),
        [7, 9, 3, 0, 5, usize::MAX]
    );
}
