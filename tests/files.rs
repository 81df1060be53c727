use render_queue::charts::{newest_first, parse_chart_list, trim, ChartEntry, RPEChartInfo};
use render_queue::naming::{
    get_presets_file, output_name, output_name_at, sanitize_name, EntryKind, PresetsError,
};

fn lines(v: &[&str]) -> Vec<String> {
    v.iter().map(|s| s.to_string()).collect()
}

fn fields(e: &ChartEntry) -> (&str, &str, &str, &str, &str) {
    (&e.name, &e.id, &e.chart, &e.picture, &e.charter)
}

#[test]
fn sanitize_keeps_letters_digits_space_hyphen_underscore() {
    assert_eq!(sanitize_name("Hello, World! 第1章-x_y"), "Hello World 第1章-x_y");
    assert_eq!(sanitize_name("a/b\\c:d*e?f"), "abcdef");
    assert_eq!(sanitize_name(""), "");
}

#[test]
fn output_name_joins_stamp_and_name() {
    assert_eq!(output_name_at("2024-01-02 03-04-05", "A/B: C"), "2024-01-02 03-04-05 AB C.mp4");
}

#[test]
fn output_name_is_stamped_to_the_second() {
    let name = output_name("Song.");
    assert!(name.ends_with(" Song.mp4"));
    let stamp = &name[..name.len() - " Song.mp4".len()];
    assert_eq!(stamp.len(), 19);
    assert_eq!(&stamp[4..5], "-");
    assert_eq!(&stamp[10..11], " ");
    assert_eq!(&stamp[13..14], "-");
    assert!(stamp[..4].chars().all(|c| c.is_ascii_digit()));
    assert!(stamp[17..19].chars().all(|c| c.is_ascii_digit()));
}

#[test]
fn presets_file_must_not_be_a_directory() {
    assert_eq!(get_presets_file("/c/presets.json".to_string(), EntryKind::Missing), Ok("/c/presets.json".to_string()));
    assert_eq!(get_presets_file("/c/presets.json".to_string(), EntryKind::File), Ok("/c/presets.json".to_string()));
    assert_eq!(get_presets_file("/c/presets.json".to_string(), EntryKind::Other), Err(PresetsError::NotAFile));
}

#[test]
fn trim_removes_white_space_at_both_ends() {
    assert_eq!(trim("  a b \t\r"), "a b");
    assert_eq!(trim("   "), "");
    assert_eq!(trim("x"), "x");
    assert_eq!(trim("\u{3000}\u{a0}名\u{2028}"), "名");
    assert_eq!(trim("\u{200b}x"), "\u{200b}x");
}

#[test]
fn chart_list_records() {
    let list = lines(&[
        "Name: Song A",
        "Path: 123",
        "Chart: 123.json",
        "Picture: a.png",
        "Charter: me",
        "#",
        "",
        "Name:B",
        "Path:456",
        "Level: 3",
        "garbage",
        "Chart:c.json",
        "Picture:p.jpg",
        "Charter: you : too  ",
    ]);
    let r = parse_chart_list(&list);
    assert_eq!(r.len(), 2);
    assert_eq!(fields(&r[0]), ("Song A", "123", "123.json", "a.png", "me"));
    assert_eq!(fields(&r[1]), ("B", "456", "c.json", "p.jpg", "you : too"));
}

#[test]
fn incomplete_record_leaves_later_fields_for_the_next() {
    let list = lines(&[
        "Path: 1", "Chart: c", "Name: n", "Charter: x", "#", "Path: 2", "Chart: d", "Name: m",
        "Picture: p", "#",
    ]);
    let r = parse_chart_list(&list);
    assert_eq!(r.len(), 1);
    assert_eq!(fields(&r[0]), ("m", "2", "d", "p", "x"));
}

#[test]
fn empty_chart_list() {
    assert!(parse_chart_list(&vec![]).is_empty());
}

fn chart(name: &str, modified: u64) -> RPEChartInfo {
    RPEChartInfo {
        name: name.to_string(),
        id: String::new(),
        path: String::new(),
        illustration: String::new(),
        charter: String::new(),
        modified,
    }
}

#[test]
fn charts_sorted_newest_first() {
    let r = newest_first(vec![chart("a", 5), chart("b", 9), chart("c", 1)]);
    let names: Vec<&str> = r.iter().map(|c| c.name.as_str()).collect();
    assert_eq!(names, vec!["b", "a", "c"]);
}
