use changeforge::changelog::{
    bullet, create_changelog, header, heading, new_changelog_entry, open_changelog, prepend_entry,
};
use changeforge::changeset::{ChangeKind, Changeset};

fn change(tag: &str, modules: &str, message: &str) -> Changeset {
    Changeset {
        name: format!("{}-{}", tag, message),
        change: ChangeKind::Patch,
        tag: tag.to_string(),
        modules: modules.to_string(),
        message: message.to_string(),
        version: "0.0.1".to_string(),
    }
}

fn strings(lines: &[&str]) -> Vec<String> {
    lines.iter().map(|l| l.to_string()).collect()
}

#[test]
fn groups_stand_in_first_seen_order() {
    let changesets = vec![
        change("Bug", "", "one"),
        change("Feature", "", "two"),
        change("Bug", "", "three"),
        change("Feature", "", "four"),
    ];
    let entry = new_changelog_entry(&changesets, &"1.0.0".to_string());
    assert_eq!(
        entry,
        strings(&[
            "## [1.0.0]\n",
            "\n### Bug\n\n",
            "- one.\n",
            "- three.\n",
            "\n### Feature\n\n",
            "- two.\n",
            "- four.\n",
        ])
    );
}

#[test]
fn each_heading_appears_once() {
    let changesets = vec![
        change("Tests", "", "a"),
        change("Bug", "", "b"),
        change("Tests", "", "c"),
        change("Tests", "", "d"),
        change("Bug", "", "e"),
    ];
    let entry = new_changelog_entry(&changesets, &"2.0.0".to_string());
    let count = |line: &str| entry.iter().filter(|l| l.as_str() == line).count();
    assert_eq!(count("\n### Tests\n\n"), 1);
    assert_eq!(count("\n### Bug\n\n"), 1);
    assert_eq!(entry.len(), 1 + 2 + 5);
    let tests_at = entry.iter().position(|l| l == "\n### Tests\n\n").unwrap();
    let bug_at = entry.iter().position(|l| l == "\n### Bug\n\n").unwrap();
    assert!(tests_at < bug_at);
    assert_eq!(&entry[tests_at + 1..bug_at], &strings(&["- a.\n", "- c.\n", "- d.\n"])[..]);
    assert_eq!(&entry[bug_at + 1..], &strings(&["- b.\n", "- e.\n"])[..]);
}

#[test]
fn order_is_not_alphabetical() {
    let changesets = vec![change("Zeta", "", "z"), change("Alpha", "", "a")];
    let entry = new_changelog_entry(&changesets, &"0.1.0".to_string());
    assert_eq!(
        entry,
        strings(&["## [0.1.0]\n", "\n### Zeta\n\n", "- z.\n", "\n### Alpha\n\n", "- a.\n"])
    );
}

#[test]
fn tags_are_compared_exactly() {
    let changesets = vec![change("Bug", "", "a"), change("bug", "", "b"), change("Bug ", "", "c")];
    let entry = new_changelog_entry(&changesets, &"0.1.0".to_string());
    assert_eq!(
        entry,
        strings(&[
            "## [0.1.0]\n",
            "\n### Bug\n\n",
            "- a.\n",
            "\n### bug\n\n",
            "- b.\n",
            "\n### Bug \n\n",
            "- c.\n",
        ])
    );
}

#[test]
fn no_changesets_give_the_header_alone() {
    assert_eq!(new_changelog_entry(&[], &"3.1.4".to_string()), strings(&["## [3.1.4]\n"]));
}

#[test]
fn bullet_without_modules() {
    assert_eq!(bullet(&change("Bug", "", "fix the crash")), "- fix the crash.\n");
}

#[test]
fn bullet_with_modules() {
    assert_eq!(
        bullet(&change("Bug", "src/parser.rs", "fix the crash")),
        "- src/parser.rs: fix the crash.\n"
    );
}

#[test]
fn bullet_keeps_blank_modules() {
    assert_eq!(bullet(&change("Bug", " ", "m")), "-  : m.\n");
}

#[test]
fn header_and_heading_lines() {
    assert_eq!(header("0.5.0"), "## [0.5.0]\n");
    assert_eq!(heading("Feature"), "\n### Feature\n\n");
    assert_eq!(heading(""), "\n### \n\n");
}

#[test]
fn changelog_lines_are_read_like_a_file() {
    assert_eq!(open_changelog(""), Vec::<String>::new());
    assert_eq!(open_changelog("# Changelog\n"), strings(&["# Changelog"]));
    assert_eq!(open_changelog("a\r\nb\n\nc"), strings(&["a", "b", "", "c"]));
}

#[test]
fn the_new_block_stands_before_the_old_lines() {
    let entry = strings(&["## [1.1.0]\n", "\n### Bug\n\n", "- x.\n"]);
    let old = strings(&["## [1.0.0]", "", "### Feature", "", "- first."]);
    let content = prepend_entry(entry.clone(), old.clone());
    assert_eq!(content.len(), 8);
    assert_eq!(&content[..3], &entry[..]);
    assert_eq!(&content[3..], &old[..]);
}

#[test]
fn changelog_text_joins_lines_and_ends_with_a_line_feed() {
    let content = strings(&["## [1.1.0]\n", "\n### Bug\n\n", "- x.\n", "## [1.0.0]"]);
    assert_eq!(create_changelog(&content), format!("{}\n", content.join("\n")));
    assert_eq!(create_changelog(&content), "## [1.1.0]\n\n\n### Bug\n\n\n- x.\n\n## [1.0.0]\n");
    assert_eq!(create_changelog(&Vec::new()), "\n");
    assert_eq!(create_changelog(&strings(&[""])), "\n");
    assert_eq!(create_changelog(&strings(&["", ""])), "\n\n");
}
