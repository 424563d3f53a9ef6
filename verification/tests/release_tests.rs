use changeforge::bump::BumpError;
use changeforge::changeset::{ChangeKind, Changeset};
use changeforge::reader::open_path;
use changeforge::release::{plan_release, Release};
use changeforge::store::{delete_changesets, StoreEntry};

fn strings(items: &[&str]) -> Vec<String> {
    items.iter().map(|s| s.to_string()).collect()
}

fn lines(text: &str) -> Vec<String> {
    text.lines().map(|l| l.to_string()).collect()
}

fn fix() -> Changeset {
    Changeset {
        name: "calm".to_string(),
        change: ChangeKind::Patch,
        tag: "Bug".to_string(),
        modules: "parser".to_string(),
        message: "fix off-by-one".to_string(),
        version: "0.4.2".to_string(),
    }
}

fn feature() -> Changeset {
    Changeset {
        name: "bold".to_string(),
        change: ChangeKind::Minor,
        tag: "Feature".to_string(),
        modules: String::new(),
        message: "add retry".to_string(),
        version: "0.5.0".to_string(),
    }
}

const MANIFEST: &str = "[project]\nname = \"demo\"\nversion = \"0.4.1\"\n";

const MODULE: &str = "__version__ = \"0.4.1\"\n";

const CHANGELOG: &str = "## [0.4.1]\n\n### Bug\n\n- older fix.\n";

#[test]
fn a_release_from_end_to_end() {
    let files = strings(&[MANIFEST, MODULE]);
    let current = open_path("pyproject.toml", &lines(&files[0])).unwrap();
    assert_eq!(current, "0.4.1");

    let release = plan_release(&current, &[fix(), feature()], CHANGELOG, &files).unwrap();

    assert_eq!(release.version, "0.5.0");
    assert!(release.changelog.starts_with("## [0.5.0]"));
    assert_eq!(
        release.changelog,
        "## [0.5.0]\n\n\n### Bug\n\n\n- parser: fix off-by-one.\n\n\n### Feature\n\n\n- add retry.\n\n## [0.4.1]\n\n### Bug\n\n- older fix.\n"
    );
    assert_eq!(
        release.files,
        strings(&[
            "[project]\nname = \"demo\"\nversion = \"0.5.0\"\n",
            "__version__ = \"0.5.0\"\n",
        ])
    );
    for file in &release.files {
        assert!(file.contains("0.5.0"));
        assert!(!file.contains("0.4.1"));
    }

    let store = vec![
        StoreEntry { path: ".changesets/calm.toml".to_string(), is_file: true },
        StoreEntry { path: ".changesets/bold.toml".to_string(), is_file: true },
    ];
    assert_eq!(
        delete_changesets(&store),
        strings(&[".changesets/calm.toml", ".changesets/bold.toml"])
    );
}

#[test]
fn the_groups_follow_the_order_of_the_changesets() {
    let files = Vec::new();
    let bug_first = plan_release("0.4.1", &[fix(), feature()], "", &files).unwrap();
    let feature_first = plan_release("0.4.1", &[feature(), fix()], "", &files).unwrap();
    assert_eq!(bug_first.version, feature_first.version);
    let bug = "\n### Bug\n";
    let feat = "\n### Feature\n";
    assert!(bug_first.changelog.find(bug).unwrap() < bug_first.changelog.find(feat).unwrap());
    assert!(feature_first.changelog.find(feat).unwrap() < feature_first.changelog.find(bug).unwrap());
    for release in [&bug_first, &feature_first] {
        assert!(release.changelog.contains("\n### Bug\n\n\n- parser: fix off-by-one.\n"));
        assert!(release.changelog.contains("\n### Feature\n\n\n- add retry.\n"));
    }
}

#[test]
fn a_first_release_starts_the_changelog() {
    let release = plan_release("1.9.9", &[fix()], "", &strings(&["v1.9.9"])).unwrap();
    assert_eq!(
        release,
        Release {
            version: "1.9.10".to_string(),
            changelog: "## [1.9.10]\n\n\n### Bug\n\n\n- parser: fix off-by-one.\n\n".to_string(),
            files: strings(&["v1.9.10"]),
        }
    );
}

#[test]
fn nothing_is_planned_without_changesets_or_version() {
    let files = strings(&[MANIFEST]);
    assert_eq!(plan_release("0.4.1", &[], CHANGELOG, &files), Err(BumpError::NothingPending));
    assert_eq!(plan_release("0.4", &[fix()], CHANGELOG, &files), Err(BumpError::InvalidVersion));
    assert_eq!(
        plan_release("4294967295.0.0", &[Changeset { change: ChangeKind::Major, ..fix() }], "", &files),
        Err(BumpError::Overflow)
    );
}

#[test]
fn planning_twice_gives_the_same_release() {
    let files = strings(&[MANIFEST, MODULE]);
    let pending = [feature(), fix(), fix()];
    assert_eq!(
        plan_release("0.4.1", &pending, CHANGELOG, &files),
        plan_release("0.4.1", &pending, CHANGELOG, &files)
    );
}
