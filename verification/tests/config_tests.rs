use changeforge::config::{
    find_version_in_file, load_changeforge_config, paths_from_sources, primary_source, resolve,
    resolve_sources, secondary_source, toggles_from_sources, CFConfig, ConfigError, Configuration,
    PathsField, Section, Source,
};

const PRIMARY: &str = "[changeforge]\nversion_path = [\"Cargo.toml\", \"src/lib.py\"]\nchangesets_dir = \".pending\"\nchangelog_path = \"docs/CHANGES.md\"\nai_enabled = false\ntemplates_dir = \"templates\"\ncommit_on_create = false\n";

const SECONDARY: &str = "[project]\nname = \"demo\"\nversion = \"0.1.0\"\n\n[tool.changeforge]\nversion_path = [\"pyproject.toml\"]\n";

fn strings(items: &[&str]) -> Vec<String> {
    items.iter().map(|s| s.to_string()).collect()
}

fn section(paths: PathsField) -> Section {
    Section {
        version_path: paths,
        changesets_dir: None,
        changelog_path: None,
        ai_enabled: None,
        templates_dir: None,
        commit_on_create: None,
    }
}

fn defaults() -> CFConfig {
    CFConfig { ai_enabled: true, templates_dir: None, commit_on_create: true }
}

#[test]
fn primary_section_is_read_key_by_key() {
    assert_eq!(
        primary_source(Some(PRIMARY)),
        Source::Found(Section {
            version_path: PathsField::List(strings(&["Cargo.toml", "src/lib.py"])),
            changesets_dir: Some(".pending".to_string()),
            changelog_path: Some("docs/CHANGES.md".to_string()),
            ai_enabled: Some(false),
            templates_dir: Some("templates".to_string()),
            commit_on_create: Some(false),
        })
    );
}

#[test]
fn secondary_section_lies_under_tool() {
    assert_eq!(
        secondary_source(Some(SECONDARY)),
        Source::Found(section(PathsField::List(strings(&["pyproject.toml"]))))
    );
    assert_eq!(primary_source(Some(SECONDARY)), Source::NoSection);
    assert_eq!(secondary_source(Some(PRIMARY)), Source::NoTools);
    assert_eq!(secondary_source(Some("[tool.other]\nx = 1\n")), Source::NoSection);
}

#[test]
fn sources_that_are_no_documents() {
    assert_eq!(primary_source(None), Source::Missing);
    assert_eq!(secondary_source(None), Source::Missing);
    assert_eq!(primary_source(Some("[changeforge\nversion_path = 3")), Source::Malformed);
    assert_eq!(secondary_source(Some("= = =")), Source::Malformed);
    assert_eq!(primary_source(Some("")), Source::NoSection);
    assert_eq!(secondary_source(Some("")), Source::NoTools);
}

#[test]
fn a_value_of_another_type_counts_as_absent() {
    let text = "[changeforge]\nversion_path = \"Cargo.toml\"\nai_enabled = \"yes\"\ntemplates_dir = 3\ncommit_on_create = 1\nchangesets_dir = true\n";
    assert_eq!(
        primary_source(Some(text)),
        Source::Found(Section {
            version_path: PathsField::NotList,
            changesets_dir: None,
            changelog_path: None,
            ai_enabled: None,
            templates_dir: None,
            commit_on_create: None,
        })
    );
    assert_eq!(primary_source(Some("changeforge = 1\n")), Source::Found(section(PathsField::Absent)));
}

#[test]
fn path_entries_are_written_out_without_quotes() {
    let text = "[changeforge]\nversion_path = [\"a.toml\", 7, true, \"dir/b c.py\"]\n";
    assert_eq!(
        find_version_in_file(Some(text), None),
        Ok(strings(&["a.toml", "7", "true", "dir/b c.py"]))
    );
}

#[test]
fn numbers_among_the_paths_are_told_apart() {
    let text = "[changeforge]\nversion_path = [7, 8, 7.5, 1979-05-27]\n";
    assert_eq!(
        find_version_in_file(Some(text), None),
        Ok(strings(&["7", "8", "7.5", "1979-05-27"]))
    );
    let nested = "[changeforge]\nversion_path = [[\"a\", 1], { b = 2, a = \"x\" }]\n";
    assert_eq!(
        find_version_in_file(Some(nested), None),
        Ok(strings(&["[a, 1]", "{ a = x, b = 2 }"]))
    );
}

#[test]
fn primary_is_preferred() {
    assert_eq!(
        find_version_in_file(Some(PRIMARY), Some(SECONDARY)),
        Ok(strings(&["Cargo.toml", "src/lib.py"]))
    );
    assert_eq!(find_version_in_file(Some(PRIMARY), None), Ok(strings(&["Cargo.toml", "src/lib.py"])));
}

#[test]
fn secondary_is_the_fallback() {
    assert_eq!(find_version_in_file(None, Some(SECONDARY)), Ok(strings(&["pyproject.toml"])));
    assert_eq!(
        find_version_in_file(Some("not = [toml"), Some(SECONDARY)),
        Ok(strings(&["pyproject.toml"]))
    );
    assert_eq!(
        find_version_in_file(Some("[other]\nx = 1\n"), Some(SECONDARY)),
        Ok(strings(&["pyproject.toml"]))
    );
}

#[test]
fn a_primary_section_is_used_alone() {
    assert_eq!(
        find_version_in_file(Some("[changeforge]\nai_enabled = true\n"), Some(SECONDARY)),
        Err(ConfigError::MissingVersionPath)
    );
    assert_eq!(
        find_version_in_file(Some("[changeforge]\nversion_path = []\n"), Some(SECONDARY)),
        Err(ConfigError::EmptyVersionPath)
    );
}

#[test]
fn each_failure_has_its_error() {
    assert_eq!(find_version_in_file(None, None), Err(ConfigError::SecondaryMissing));
    assert_eq!(find_version_in_file(None, Some("[tool")), Err(ConfigError::SecondaryMalformed));
    assert_eq!(
        find_version_in_file(None, Some("[project]\nname = \"x\"\n")),
        Err(ConfigError::MissingTools)
    );
    assert_eq!(
        find_version_in_file(None, Some("[tool.black]\nline-length = 100\n")),
        Err(ConfigError::MissingSection)
    );
    assert_eq!(
        find_version_in_file(None, Some("[tool.changeforge]\nai_enabled = true\n")),
        Err(ConfigError::MissingVersionPath)
    );
    assert_eq!(
        find_version_in_file(None, Some("[tool.changeforge]\nversion_path = \"Cargo.toml\"\n")),
        Err(ConfigError::VersionPathNotList)
    );
    assert_eq!(
        find_version_in_file(None, Some("[tool.changeforge]\nversion_path = []\n")),
        Err(ConfigError::EmptyVersionPath)
    );
}

#[test]
fn every_error_has_its_own_message() {
    let errors = [
        ConfigError::SecondaryMissing,
        ConfigError::SecondaryMalformed,
        ConfigError::MissingTools,
        ConfigError::MissingSection,
        ConfigError::MissingVersionPath,
        ConfigError::VersionPathNotList,
        ConfigError::EmptyVersionPath,
    ];
    for (i, a) in errors.iter().enumerate() {
        assert!(!a.message().is_empty());
        for b in errors.iter().skip(i + 1) {
            assert_ne!(a.message(), b.message());
        }
    }
    assert_eq!(
        ConfigError::MissingVersionPath.message(),
        "The changeforge utility doesn't include a `version_path` field"
    );
    assert_eq!(
        ConfigError::EmptyVersionPath.message(),
        "Couldn't find any version paths in the configuration."
    );
}

#[test]
fn toggles_come_from_the_first_section_found() {
    assert_eq!(
        load_changeforge_config(Some(PRIMARY), Some(SECONDARY)),
        CFConfig {
            ai_enabled: false,
            templates_dir: Some("templates".to_string()),
            commit_on_create: false,
        }
    );
    assert_eq!(load_changeforge_config(None, Some(SECONDARY)), defaults());
    let secondary = "[tool.changeforge]\nai_enabled = false\n";
    assert_eq!(
        load_changeforge_config(Some("broken ["), Some(secondary)),
        CFConfig { ai_enabled: false, templates_dir: None, commit_on_create: true }
    );
}

#[test]
fn toggles_default_to_on() {
    assert_eq!(load_changeforge_config(None, None), defaults());
    assert_eq!(load_changeforge_config(Some("x = 1"), Some("[tool")), defaults());
    assert_eq!(load_changeforge_config(Some("[changeforge]\n"), None), defaults());
    assert_eq!(load_changeforge_config(None, Some("[tool.other]\n")), defaults());
}

#[test]
fn a_blank_templates_directory_is_none() {
    for dir in ["", " ", "\t \u{a0}\u{2003}"] {
        let text = format!("[changeforge]\ntemplates_dir = \"{}\"\n", dir);
        assert_eq!(load_changeforge_config(Some(&text), None).templates_dir, None);
    }
    let text = "[changeforge]\ntemplates_dir = \" t \"\n";
    assert_eq!(load_changeforge_config(Some(text), None).templates_dir, Some(" t ".to_string()));
}

#[test]
fn the_whole_configuration_is_resolved() {
    assert_eq!(
        resolve(Some(PRIMARY), None),
        Ok(Configuration {
            version_paths: strings(&["Cargo.toml", "src/lib.py"]),
            changesets_dir: ".pending".to_string(),
            changelog_path: "docs/CHANGES.md".to_string(),
            ai_enabled: false,
            templates_dir: Some("templates".to_string()),
            commit_on_create: false,
        })
    );
    assert_eq!(
        resolve(None, Some(SECONDARY)),
        Ok(Configuration {
            version_paths: strings(&["pyproject.toml"]),
            changesets_dir: ".changesets".to_string(),
            changelog_path: "CHANGELOG.md".to_string(),
            ai_enabled: true,
            templates_dir: None,
            commit_on_create: true,
        })
    );
    assert_eq!(resolve(None, None), Err(ConfigError::SecondaryMissing));
    assert_eq!(
        resolve(Some("[changeforge]\nversion_path = []"), None),
        Err(ConfigError::EmptyVersionPath)
    );
}

#[test]
fn resolution_is_the_same_on_every_call() {
    for _ in 0..3 {
        assert_eq!(resolve(Some(PRIMARY), Some(SECONDARY)), resolve(Some(PRIMARY), Some(SECONDARY)));
    }
}

#[test]
fn sources_decide_without_any_document() {
    let found = Source::Found(section(PathsField::List(strings(&["a"]))));
    let empty = Source::Found(section(PathsField::List(Vec::new())));
    assert_eq!(paths_from_sources(found.clone(), Source::Missing), Ok(strings(&["a"])));
    assert_eq!(paths_from_sources(Source::NoSection, found.clone()), Ok(strings(&["a"])));
    assert_eq!(paths_from_sources(Source::Malformed, found.clone()), Ok(strings(&["a"])));
    assert_eq!(paths_from_sources(empty.clone(), found.clone()), Err(ConfigError::EmptyVersionPath));
    assert_eq!(
        paths_from_sources(Source::Missing, Source::NoTools),
        Err(ConfigError::MissingTools)
    );
    assert_eq!(
        paths_from_sources(Source::Missing, Source::Malformed),
        Err(ConfigError::SecondaryMalformed)
    );
    assert_eq!(toggles_from_sources(Source::Missing, Source::NoSection), defaults());
    assert_eq!(toggles_from_sources(empty, Source::Missing), defaults());
    let mut picky = section(PathsField::Absent);
    picky.commit_on_create = Some(false);
    picky.templates_dir = Some("\n".to_string());
    assert_eq!(
        toggles_from_sources(Source::NoSection, Source::Found(picky.clone())),
        CFConfig { ai_enabled: true, templates_dir: None, commit_on_create: false }
    );
    assert_eq!(
        resolve_sources(Source::Found(picky), found),
        Err(ConfigError::MissingVersionPath)
    );
}
