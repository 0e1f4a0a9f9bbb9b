use manga_syncer::chapter::ChapterAttributes;
use manga_syncer::naming::{chapter_filename, display_name, manga_dirname};

fn attrs(volume: Option<&str>, number: Option<&str>, title: Option<&str>) -> ChapterAttributes {
    ChapterAttributes {
        volume: volume.map(str::to_string),
        chapter: number.map(str::to_string),
        title: title.map(str::to_string),
        external_url: None,
    }
}

#[test]
fn display_name_precedence_volume_and_title() {
    let a = attrs(Some("3"), Some("21"), Some("A Fine Day"));
    assert_eq!(display_name(&a, &Vec::new()), "Vol. 3 Ch. 21 A Fine Day");
}

#[test]
fn display_name_precedence_volume_only() {
    let a = attrs(Some("3"), Some("21"), None);
    assert_eq!(display_name(&a, &Vec::new()), "Vol. 3 Ch. 21");
}

#[test]
fn display_name_precedence_title_only() {
    let a = attrs(None, Some("21"), Some("A Fine Day"));
    assert_eq!(display_name(&a, &Vec::new()), "Ch. 21 A Fine Day");
}

#[test]
fn display_name_precedence_neither() {
    let a = attrs(None, Some("21"), None);
    assert_eq!(display_name(&a, &Vec::new()), "Ch. 21");
}

#[test]
fn display_name_missing_number_becomes_zero() {
    let a = attrs(None, None, Some("Oneshot"));
    assert_eq!(display_name(&a, &Vec::new()), "Ch. 0 Oneshot");
}

#[test]
fn display_name_groups_joined_in_brackets() {
    let a = attrs(None, Some("2"), None);
    let groups = vec!["Alpha".to_string(), "Beta".to_string(), "Gamma".to_string()];
    assert_eq!(display_name(&a, &groups), "Ch. 2 [Alpha, Beta, Gamma]");
}

#[test]
fn display_name_empty_group_list_has_no_brackets() {
    let a = attrs(None, Some("2"), None);
    assert_eq!(display_name(&a, &Vec::new()), "Ch. 2");
    // A single empty name joins to an empty list, which is omitted too.
    assert_eq!(display_name(&a, &vec![String::new()]), "Ch. 2");
}

#[test]
fn chapter_filename_sanitizes_and_appends_key() {
    let a = attrs(None, Some("4"), Some("Who/What"));
    let name = chapter_filename(&a, &Vec::new(), "KEY", false);
    assert_eq!(name, "Ch. 4 Who-What - KEY.zip");
}

#[test]
fn manga_dirname_sanitizes_and_appends_key() {
    assert_eq!(manga_dirname("T/itle", "KEY", false), "T-itle - KEY");
}
