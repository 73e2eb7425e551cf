use file_organizer::label::{extension, extension_label};

#[test]
fn extension_is_the_text_after_the_last_dot() {
    assert_eq!(extension("report.TXT"), Some("TXT"));
    assert_eq!(extension("archive.tar.gz"), Some("gz"));
    assert_eq!(extension("a.b.c.d"), Some("d"));
}

#[test]
fn extension_of_a_name_without_dot_is_none() {
    assert_eq!(extension("notes"), None);
    assert_eq!(extension("Makefile"), None);
    assert_eq!(extension(""), None);
}

#[test]
fn extension_after_a_trailing_dot_is_empty() {
    assert_eq!(extension("draft."), Some(""));
    assert_eq!(extension("."), Some(""));
    assert_eq!(extension("a..").map(str::len), Some(0));
}

#[test]
fn extension_of_a_name_that_starts_with_a_dot() {
    assert_eq!(extension(".bashrc"), Some("bashrc"));
    assert_eq!(extension(".config.toml"), Some("toml"));
}

#[test]
fn extension_counts_characters_not_bytes() {
    assert_eq!(extension("r\u{e9}sum\u{e9}.pdf"), Some("pdf"));
    assert_eq!(extension("plan.\u{c4}\u{d6}"), Some("\u{c4}\u{d6}"));
    assert_eq!(extension("\u{1f600}.\u{1f600}x"), Some("\u{1f600}x"));
}

#[test]
fn label_is_the_extension_in_lower_case() {
    assert_eq!(extension_label("report.TXT"), "txt");
    assert_eq!(extension_label("photo.jpg"), "jpg");
    assert_eq!(extension_label("Photo.JpG"), "jpg");
    assert_eq!(extension_label("archive.tar.GZ"), "gz");
}

#[test]
fn label_of_a_name_without_dot_is_unknown() {
    assert_eq!(extension_label("notes"), "unknown");
    assert_eq!(extension_label("README"), "unknown");
    assert_eq!(extension_label(""), "unknown");
}

#[test]
fn label_keeps_what_has_no_lower_case() {
    assert_eq!(extension_label("song.mp3"), "mp3");
    assert_eq!(extension_label("backup.7Z"), "7z");
    assert_eq!(extension_label("odd.a-b_c"), "a-b_c");
}

#[test]
fn label_lowers_letters_beyond_ascii() {
    assert_eq!(extension_label("plan.\u{c4}\u{d6}\u{dc}"), "\u{e4}\u{f6}\u{fc}");
    assert_eq!(extension_label("x.\u{394}"), "\u{3b4}");
}

#[test]
fn label_after_a_trailing_dot_is_empty() {
    assert_eq!(extension_label("draft."), "");
}

#[test]
fn label_of_a_file_called_like_the_fallback() {
    assert_eq!(extension_label("mystery.UNKNOWN"), "unknown");
    assert_eq!(extension_label(".bashrc"), "bashrc");
}
