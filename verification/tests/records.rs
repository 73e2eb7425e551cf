use file_organizer::catalog::{Group, OrganizedFiles};
use file_organizer::summary::render;

fn text(s: &str) -> String {
    s.to_string()
}

#[test]
fn new_record_is_empty() {
    let files = OrganizedFiles::new();
    assert!(files.groups().is_empty());
    assert_eq!(files.get("txt"), None);
}

#[test]
fn record_opens_a_group_for_a_new_label() {
    let mut files = OrganizedFiles::new();
    files.record(text("txt"), text("a.txt"));
    assert_eq!(files.groups().len(), 1);
    assert_eq!(files.groups()[0], Group { label: text("txt"), files: vec![text("a.txt")] });
    assert_eq!(files.get("txt"), Some(&vec![text("a.txt")]));
    assert_eq!(files.get("jpg"), None);
}

#[test]
fn record_appends_to_the_group_of_a_known_label() {
    let mut files = OrganizedFiles::new();
    files.record(text("txt"), text("a.txt"));
    files.record(text("jpg"), text("p.jpg"));
    files.record(text("txt"), text("b.txt"));
    files.record(text("txt"), text("c.txt"));
    assert_eq!(files.groups().len(), 2);
    assert_eq!(files.get("txt"), Some(&vec![text("a.txt"), text("b.txt"), text("c.txt")]));
    assert_eq!(files.get("jpg"), Some(&vec![text("p.jpg")]));
}

#[test]
fn groups_stand_in_the_order_of_first_appearance() {
    let mut files = OrganizedFiles::new();
    files.record(text("zip"), text("z.zip"));
    files.record(text("a"), text("x.a"));
    files.record(text("zip"), text("y.zip"));
    files.record(text("m"), text("x.m"));
    let labels: Vec<&str> = files.groups().iter().map(|g| g.label.as_str()).collect();
    assert_eq!(labels, vec!["zip", "a", "m"]);
}

#[test]
fn record_keeps_a_name_that_comes_twice() {
    let mut files = OrganizedFiles::new();
    files.record(text("txt"), text("a.txt"));
    files.record(text("txt"), text("a.txt"));
    assert_eq!(files.get("txt"), Some(&vec![text("a.txt"), text("a.txt")]));
}

#[test]
fn record_tells_labels_apart_by_case_and_length() {
    let mut files = OrganizedFiles::new();
    files.record(text("txt"), text("a.txt"));
    files.record(text("TXT"), text("b.TXT"));
    files.record(text(""), text("c."));
    files.record(text("tx"), text("d.tx"));
    assert_eq!(files.groups().len(), 4);
    assert_eq!(files.get(""), Some(&vec![text("c.")]));
    assert_eq!(files.get("t"), None);
}

#[test]
fn summary_of_an_empty_record_is_the_heading() {
    let files = OrganizedFiles::new();
    assert_eq!(render(&files), "\nFile Organization Summary:\n-------------------------\n");
}

#[test]
fn summary_lists_each_group_with_its_files() {
    let mut files = OrganizedFiles::new();
    files.record(text("txt"), text("a.txt"));
    files.record(text("jpg"), text("photo.jpg"));
    files.record(text("txt"), text("b.txt"));
    let expected = "\nFile Organization Summary:\n\
                    -------------------------\n\
                    \n.txt files:\n  - a.txt\n  - b.txt\n\
                    \n.jpg files:\n  - photo.jpg\n";
    assert_eq!(render(&files), expected);
}

#[test]
fn summary_divider_has_twenty_five_dashes() {
    let summary = render(&OrganizedFiles::new());
    let lines: Vec<&str> = summary.split('\n').collect();
    assert_eq!(lines, vec!["", "File Organization Summary:", "-".repeat(25).as_str(), ""]);
}
