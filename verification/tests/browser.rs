use mad_typing::app::App;
use mad_typing::files::TextFile;
use mad_typing::logging::timestamp;
use mad_typing::display::truncate_line;

fn file(name: &str) -> TextFile {
    TextFile {
        name: name.to_string(),
        path: format!("/dir/{}", name),
        lines: vec!["line".to_string()],
    }
}

fn sample_app() -> App {
    App::new(vec![file("Alpha.txt"), file("beta.md"), file("GAMMA.txt")])
}

#[test]
fn new_app_shows_everything_unfiltered() {
    let app = sample_app();
    assert_eq!(app.total_count(), 3);
    assert_eq!(app.filtered_count(), 3);
    assert_eq!(app.selected_index(), 0);
    assert!(app.is_search_empty());
    assert!(app.get_error().is_none());
    assert_eq!(app.search_query(), "");
    assert_eq!(app.get_selected().unwrap().name, "Alpha.txt");
    let shown = app.filtered_files();
    assert_eq!(shown.len(), 3);
    assert_eq!(shown[1].name, "beta.md");
}

#[test]
fn selection_wraps_both_ways() {
    let mut app = sample_app();
    app.move_up();
    assert_eq!(app.selected_index(), 2);
    app.move_down();
    assert_eq!(app.selected_index(), 0);
    app.move_down();
    assert_eq!(app.selected_index(), 1);
    app.move_up();
    assert_eq!(app.selected_index(), 0);
}

#[test]
fn moves_over_empty_view_do_nothing() {
    let mut app = App::new(Vec::new());
    app.move_up();
    app.move_down();
    assert_eq!(app.selected_index(), 0);
    assert!(app.get_selected().is_none());
    assert!(app.filtered_files().is_empty());
}

#[test]
fn search_filters_case_insensitively_by_substring() {
    let mut app = sample_app();
    app.add_search_char('g');
    app.add_search_char('a');
    assert_eq!(app.search_query(), "ga");
    // "GAMMA.txt" matched against "ga" only through case folding
    assert_eq!(app.filtered_count(), 1);
    assert_eq!(app.get_selected().unwrap().name, "GAMMA.txt");
    app.remove_search_char();
    // "ga" -> "g": still only GAMMA
    assert_eq!(app.filtered_count(), 1);
    app.remove_search_char();
    assert_eq!(app.filtered_count(), 3);
}

#[test]
fn substring_match_is_not_whole_name_equality() {
    let mut app = sample_app();
    for c in "eta".chars() {
        app.add_search_char(c);
    }
    assert_eq!(app.filtered_count(), 1);
    assert_eq!(app.get_selected().unwrap().name, "beta.md");
}

#[test]
fn no_match_empties_the_view() {
    let mut app = sample_app();
    app.add_search_char('z');
    app.add_search_char('z');
    assert_eq!(app.filtered_count(), 0);
    assert!(app.get_selected().is_none());
    assert_eq!(app.selected_index(), 0);
}

#[test]
fn selection_resets_when_it_falls_outside_the_filter() {
    let mut app = sample_app();
    app.move_down();
    app.move_down();
    assert_eq!(app.selected_index(), 2);
    app.add_search_char('b');
    assert_eq!(app.filtered_count(), 1);
    assert_eq!(app.selected_index(), 0);
}

#[test]
fn errors_set_and_clear() {
    let mut app = sample_app();
    app.set_error("boom".to_string());
    assert_eq!(app.get_error().unwrap(), "boom");
    app.clear_error();
    assert!(app.get_error().is_none());
}

#[test]
fn refresh_replaces_files_and_reports_the_count_change() {
    let mut app = sample_app();
    app.add_search_char('b');
    let moved = app.refresh_files(vec![file("one.txt")]);
    assert_eq!(moved, 2);
    assert_eq!(app.total_count(), 1);
    assert_eq!(app.filtered_count(), 1);
    assert!(app.is_search_empty());
    assert_eq!(app.selected_index(), 0);
    let moved_up = app.refresh_files(vec![file("a.txt"), file("b.txt"), file("c.txt")]);
    assert_eq!(moved_up, 2);
}

#[test]
fn timestamps_are_zero_padded_time_of_day() {
    assert_eq!(timestamp(0), "00:00:00");
    assert_eq!(timestamp(3661), "01:01:01");
    assert_eq!(timestamp(86399), "23:59:59");
    assert_eq!(timestamp(86400), "00:00:00");
    assert_eq!(timestamp(45296), "12:34:56");
}

#[test]
fn truncation_adds_ellipsis_only_when_needed() {
    assert_eq!(truncate_line("hello", 3), "hel...");
    assert_eq!(truncate_line("hi", 50), "hi");
    assert_eq!(truncate_line("", 0), "");
    assert_eq!(truncate_line("abcd", 4), "abcd");
    assert_eq!(truncate_line("abcde", 4), "abcd...");
}
