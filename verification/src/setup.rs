//! What project setup writes: the settings file and the two workflows.

use crate::text::texts;
use vstd::prelude::*;
use vstd::string::*;

verus! {

/// The open-PR workflow up to the branch that is watched.
pub const OPEN_PR_HEAD: &'static str =
    "name: Open PR on push\n\non:\n  push:\n    branches:\n      - ";

/// The open-PR workflow between the watched branch and the base branch.
pub const OPEN_PR_BODY: &'static str =
    "\n\njobs:\n  open_pr:\n    runs-on: ubuntu-latest\n    steps:\n      - uses: actions/checkout@v4\n      - uses: actions/setup-python@v5\n        with:\n          python-version: '3.10'\n      - name: Install PyGithub\n        run: pip install PyGithub\n      - name: Open PR\n        env:\n          GITHUB_TOKEN: ${{ secrets.GITHUB_TOKEN }}\n          REPO_NAME: ${{ github.repository }}\n          BRANCH_NAME: ";

/// The open-PR workflow behind the base branch.
pub const OPEN_PR_TAIL: &'static str =
    "\n          HEAD_BRANCH: ${{ github.ref_name }}\n        run: python .github/utilities/open_pr.py\n";

/// The release workflow up to the target branch.
pub const RELEASE_HEAD: &'static str =
    "name: Auto Release on target branch\n\non:\n  push:\n    branches:\n      - ";

/// The release workflow behind the target branch.
pub const RELEASE_TAIL: &'static str =
    "\n\njobs:\n  release:\n    runs-on: ubuntu-latest\n    steps:\n      - uses: actions/checkout@v4\n      - name: Extract version\n        id: v\n        shell: bash\n        run: |\n          set -e\n          ver=\"\"\n          if [ -f pyproject.toml ]; then\n            ver=$(grep -m1 -oE 'version\\s*=\\s*\"[0-9]+\\.[0-9]+\\.[0-9]+\"' pyproject.toml | sed -E 's/.*\"([0-9.]+)\"/\\1/')\n          fi\n          if [ -z \"$ver\" ] && [ -f Cargo.toml ]; then\n            ver=$(grep -m1 -oE '^version\\s*=\\s*\"[0-9]+\\.[0-9]+\\.[0-9]+\"' Cargo.toml | sed -E 's/.*\"([0-9.]+)\"/\\1/')\n          fi\n          echo \"tag=v$ver\" >> $GITHUB_OUTPUT\n      - name: Create GitHub Release\n        uses: softprops/action-gh-release@v1\n        with:\n          tag_name: ${{ steps.v.outputs.tag }}\n          name: ${{ steps.v.outputs.tag }}\n          body_path: CHANGELOG.md\n        env:\n          GITHUB_TOKEN: ${{ secrets.GITHUB_TOKEN }}\n";

/// `text` between double quotes. Nothing in it is escaped.
pub open spec fn quoted(text: Seq<char>) -> Seq<char> {
    "\""@ + text + "\""@
}

/// `paths`, each between double quotes, with `, ` between them.
pub open spec fn quoted_list(paths: Seq<Seq<char>>) -> Seq<char>
    decreases paths.len(),
{
    if paths.len() == 0 {
        Seq::<char>::empty()
    } else if paths.len() == 1 {
        quoted(paths[0])
    } else {
        quoted_list(paths.drop_last()) + ", "@ + quoted(paths.last())
    }
}

/// A boolean as TOML writes it.
pub open spec fn flag_text(b: bool) -> Seq<char> {
    if b {
        "true"@
    } else {
        "false"@
    }
}

/// The settings file for the given settings.
pub open spec fn config_text(
    version_paths: Seq<Seq<char>>,
    changesets_dir: Seq<char>,
    changelog_path: Seq<char>,
    ai_enabled: bool,
    templates_dir: Seq<char>,
    commit_on_create: bool,
) -> Seq<char> {
    "[changeforge]\nversion_path = ["@ + quoted_list(version_paths) + "]\nchangesets_dir = "@
        + quoted(changesets_dir) + "\nchangelog_path = "@ + quoted(changelog_path)
        + "\nai_enabled = "@ + flag_text(ai_enabled) + "\ntemplates_dir = "@ + quoted(
        templates_dir,
    ) + "\ncommit_on_create = "@ + flag_text(commit_on_create) + "\n"@
}

/// Appends `text` between double quotes to `out`.
fn append_quoted(out: &mut String, text: &str)
    ensures
        final(out)@ == old(out)@ + quoted(text@),
{
    out.append("\"");
    out.append(text);
    out.append("\"");
    assert(final(out)@ =~= old(out)@ + quoted(text@));
}

/// Appends the list of `paths` to `out`.
fn append_quoted_list(out: &mut String, paths: &[String])
    ensures
        final(out)@ == old(out)@ + quoted_list(texts(paths@)),
{
    let ghost all = texts(paths@);
    let ghost base = out@;
    let mut at: usize = 0;
    proof {
        assert(all.take(0) =~= Seq::<Seq<char>>::empty());
        assert(base + quoted_list(all.take(0)) =~= base);
    }
    while at < paths.len()
        invariant
            at <= paths.len(),
            all == texts(paths@),
            out@ == base + quoted_list(all.take(at as int)),
        decreases paths.len() - at,
    {
        proof {
            assert(all.take(at + 1).drop_last() =~= all.take(at as int));
            assert(all.take(at + 1).last() == paths@[at as int]@);
        }
        if at > 0 {
            out.append(", ");
        }
        append_quoted(out, paths[at].as_str());
        proof {
            let now = all.take(at + 1);
            if at == 0 {
                assert(now[0] == paths@[0]@);
                assert(quoted_list(all.take(0)) =~= Seq::<char>::empty());
                assert(out@ =~= base + quoted_list(now));
            } else {
                assert(out@ =~= base + (quoted_list(all.take(at as int)) + ", "@ + quoted(
                    now.last(),
                )));
            }
        }
        at += 1;
    }
    assert(all.take(at as int) =~= all);
}

/// Appends a boolean to `out`.
fn append_flag(out: &mut String, b: bool)
    ensures
        final(out)@ == old(out)@ + flag_text(b),
{
    if b {
        out.append("true");
    } else {
        out.append("false");
    }
}

/// The text of the settings file that project setup writes.
pub fn generate_config_toml(
    version_paths: &[String],
    changesets_dir: &str,
    changelog_path: &str,
    ai_enabled: bool,
    templates_dir: &str,
    commit_on_create: bool,
) -> (text: String)
    ensures
        text@ == config_text(
            texts(version_paths@),
            changesets_dir@,
            changelog_path@,
            ai_enabled,
            templates_dir@,
            commit_on_create,
        ),
{
    let mut text = String::from_str("[changeforge]\nversion_path = [");
    append_quoted_list(&mut text, version_paths);
    text.append("]\nchangesets_dir = ");
    append_quoted(&mut text, changesets_dir);
    text.append("\nchangelog_path = ");
    append_quoted(&mut text, changelog_path);
    text.append("\nai_enabled = ");
    append_flag(&mut text, ai_enabled);
    text.append("\ntemplates_dir = ");
    append_quoted(&mut text, templates_dir);
    text.append("\ncommit_on_create = ");
    append_flag(&mut text, commit_on_create);
    text.append("\n");
    assert(text@ =~= config_text(
        texts(version_paths@),
        changesets_dir@,
        changelog_path@,
        ai_enabled,
        templates_dir@,
        commit_on_create,
    ));
    text
}

/// The workflow that opens a pull request into `base_branch` when
/// `branch_watch` is pushed to.
pub fn generate_workflow_open_pr(branch_watch: &str, base_branch: &str) -> (text: String)
    ensures
        text@ == OPEN_PR_HEAD@ + branch_watch@ + OPEN_PR_BODY@ + base_branch@ + OPEN_PR_TAIL@,
{
    let mut text = String::from_str(OPEN_PR_HEAD);
    text.append(branch_watch);
    text.append(OPEN_PR_BODY);
    text.append(base_branch);
    text.append(OPEN_PR_TAIL);
    text
}

/// The workflow that makes a release when `target_branch` is pushed to.
pub fn generate_workflow_auto_release(target_branch: &str) -> (text: String)
    ensures
        text@ == RELEASE_HEAD@ + target_branch@ + RELEASE_TAIL@,
{
    let mut text = String::from_str(RELEASE_HEAD);
    text.append(target_branch);
    text.append(RELEASE_TAIL);
    text
}

} // verus!
