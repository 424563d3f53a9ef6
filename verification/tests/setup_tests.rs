use changeforge::config::{resolve, Configuration};
use changeforge::layout::{
    box_width, centered_padding, inner_width, separator_width, trailing_padding,
};
use changeforge::setup::{
    generate_config_toml, generate_workflow_auto_release, generate_workflow_open_pr,
};
use changeforge::store::{delete_changesets, StoreEntry};

fn strings(items: &[&str]) -> Vec<String> {
    items.iter().map(|s| s.to_string()).collect()
}

fn entry(path: &str, is_file: bool) -> StoreEntry {
    StoreEntry { path: path.to_string(), is_file }
}

#[test]
fn the_settings_file_lists_every_setting() {
    let text = generate_config_toml(
        &strings(&["pyproject.toml", "src/demo/__init__.py"]),
        ".changesets",
        "CHANGELOG.md",
        true,
        "",
        false,
    );
    assert_eq!(
        text,
        "[changeforge]\nversion_path = [\"pyproject.toml\", \"src/demo/__init__.py\"]\nchangesets_dir = \".changesets\"\nchangelog_path = \"CHANGELOG.md\"\nai_enabled = true\ntemplates_dir = \"\"\ncommit_on_create = false\n"
    );
}

#[test]
fn the_settings_file_is_laid_out_as_documented() {
    for paths in [vec![], strings(&["a"]), strings(&["a", "b"]), strings(&["a", "b", "c d"])] {
        for (ai, commit) in [(true, true), (false, true), (true, false), (false, false)] {
            let joined =
                paths.iter().map(|p| format!("\"{}\"", p)).collect::<Vec<String>>().join(", ");
            let expected = format!(
                "[changeforge]\nversion_path = [{}]\nchangesets_dir = \"{}\"\nchangelog_path = \"{}\"\nai_enabled = {}\ntemplates_dir = \"{}\"\ncommit_on_create = {}\n",
                joined, ".cs", "LOG.md", ai, "tpl", commit
            );
            assert_eq!(generate_config_toml(&paths, ".cs", "LOG.md", ai, "tpl", commit), expected);
        }
    }
}

#[test]
fn the_settings_file_resolves_to_its_settings() {
    let text = generate_config_toml(
        &strings(&["Cargo.toml", "README.md"]),
        ".pending",
        "HISTORY.md",
        false,
        "templates/messages",
        true,
    );
    assert_eq!(
        resolve(Some(&text), None),
        Ok(Configuration {
            version_paths: strings(&["Cargo.toml", "README.md"]),
            changesets_dir: ".pending".to_string(),
            changelog_path: "HISTORY.md".to_string(),
            ai_enabled: false,
            templates_dir: Some("templates/messages".to_string()),
            commit_on_create: true,
        })
    );
}

#[test]
fn the_open_pr_workflow_names_both_branches() {
    let expected = format!(
        "name: Open PR on push\n\non:\n  push:\n    branches:\n      - {}\n\njobs:\n  open_pr:\n    runs-on: ubuntu-latest\n    steps:\n      - uses: actions/checkout@v4\n      - uses: actions/setup-python@v5\n        with:\n          python-version: '3.10'\n      - name: Install PyGithub\n        run: pip install PyGithub\n      - name: Open PR\n        env:\n          GITHUB_TOKEN: ${{{{ secrets.GITHUB_TOKEN }}}}\n          REPO_NAME: ${{{{ github.repository }}}}\n          BRANCH_NAME: {}\n          HEAD_BRANCH: ${{{{ github.ref_name }}}}\n        run: python .github/utilities/open_pr.py\n",
        "bump-new-version", "main"
    );
    assert_eq!(generate_workflow_open_pr("bump-new-version", "main"), expected);
    let text = generate_workflow_open_pr("watch", "base");
    assert!(text.contains("    branches:\n      - watch\n"));
    assert!(text.contains("          BRANCH_NAME: base\n"));
    assert!(text.contains("GITHUB_TOKEN: ${{ secrets.GITHUB_TOKEN }}"));
}

#[test]
fn the_release_workflow_names_the_target_branch() {
    let expected = format!(
        "name: Auto Release on target branch\n\non:\n  push:\n    branches:\n      - {}\n\njobs:\n  release:\n    runs-on: ubuntu-latest\n    steps:\n      - uses: actions/checkout@v4\n      - name: Extract version\n        id: v\n        shell: bash\n        run: |\n          set -e\n          ver=\"\"\n          if [ -f pyproject.toml ]; then\n            ver=$(grep -m1 -oE 'version\\s*=\\s*\"[0-9]+\\.[0-9]+\\.[0-9]+\"' pyproject.toml | sed -E 's/.*\"([0-9.]+)\"/\\1/')\n          fi\n          if [ -z \"$ver\" ] && [ -f Cargo.toml ]; then\n            ver=$(grep -m1 -oE '^version\\s*=\\s*\"[0-9]+\\.[0-9]+\\.[0-9]+\"' Cargo.toml | sed -E 's/.*\"([0-9.]+)\"/\\1/')\n          fi\n          echo \"tag=v$ver\" >> $GITHUB_OUTPUT\n      - name: Create GitHub Release\n        uses: softprops/action-gh-release@v1\n        with:\n          tag_name: ${{{{ steps.v.outputs.tag }}}}\n          name: ${{{{ steps.v.outputs.tag }}}}\n          body_path: CHANGELOG.md\n        env:\n          GITHUB_TOKEN: ${{{{ secrets.GITHUB_TOKEN }}}}\n",
        "main"
    );
    assert_eq!(generate_workflow_auto_release("main"), expected);
    assert!(generate_workflow_auto_release("release/1.x").contains("      - release/1.x\n\njobs:"));
}

#[test]
fn a_box_is_as_wide_as_the_terminal_within_limits() {
    assert_eq!(box_width(None), 60);
    assert_eq!(box_width(Some(80)), 80);
    assert_eq!(box_width(Some(40)), 40);
    assert_eq!(box_width(Some(39)), 40);
    assert_eq!(box_width(Some(0)), 40);
    assert_eq!(box_width(Some(100)), 100);
    assert_eq!(box_width(Some(101)), 100);
    assert_eq!(box_width(Some(u16::MAX)), 100);
}

#[test]
fn a_rule_is_two_short_of_the_terminal_within_limits() {
    assert_eq!(separator_width(None), 58);
    assert_eq!(separator_width(Some(80)), 78);
    assert_eq!(separator_width(Some(42)), 40);
    assert_eq!(separator_width(Some(41)), 40);
    assert_eq!(separator_width(Some(1)), 40);
    assert_eq!(separator_width(Some(0)), 40);
    assert_eq!(separator_width(Some(102)), 100);
    assert_eq!(separator_width(Some(103)), 100);
}

#[test]
fn the_room_inside_a_box() {
    assert_eq!(inner_width(60), 58);
    assert_eq!(inner_width(2), 0);
    assert_eq!(inner_width(1), 0);
    assert_eq!(inner_width(0), 0);
}

#[test]
fn a_content_is_centred() {
    assert_eq!(centered_padding(58, 10), (24, 24));
    assert_eq!(centered_padding(58, 11), (23, 24));
    assert_eq!(centered_padding(58, 58), (0, 0));
    assert_eq!(centered_padding(58, 57), (0, 1));
    assert_eq!(centered_padding(58, 90), (0, 0));
    assert_eq!(centered_padding(0, 0), (0, 0));
}

#[test]
fn a_content_is_set_at_the_left() {
    assert_eq!(trailing_padding(58, 10), 48);
    assert_eq!(trailing_padding(58, 58), 0);
    assert_eq!(trailing_padding(58, 59), 0);
}

#[test]
fn only_regular_files_are_deleted() {
    let listing = vec![
        entry(".changesets/calm.toml", true),
        entry(".changesets/archive", false),
        entry(".changesets/bold.toml", true),
        entry(".changesets/notes.txt", true),
    ];
    assert_eq!(
        delete_changesets(&listing),
        strings(&[".changesets/calm.toml", ".changesets/bold.toml", ".changesets/notes.txt"])
    );
}

#[test]
fn a_cleared_store_has_nothing_to_delete() {
    let listing = vec![
        entry(".changesets/calm.toml", true),
        entry(".changesets/archive", false),
        entry(".changesets/bold.toml", true),
    ];
    let doomed = delete_changesets(&listing);
    let left: Vec<StoreEntry> =
        listing.into_iter().filter(|e| !doomed.contains(&e.path)).collect();
    assert_eq!(left, vec![entry(".changesets/archive", false)]);
    assert_eq!(delete_changesets(&left), Vec::<String>::new());
    assert_eq!(delete_changesets(&Vec::new()), Vec::<String>::new());
}
