use changeforge::changeset::{ChangeKind, Changeset};
use changeforge::record::{
    changeset_of_fields, read_record, write_record, Field, RecordError,
};

fn changeset(name: &str, change: ChangeKind, modules: &str, message: &str) -> Changeset {
    Changeset {
        name: name.to_string(),
        change,
        tag: "Feature".to_string(),
        modules: modules.to_string(),
        message: message.to_string(),
        version: "0.5.0".to_string(),
    }
}

const RECORD: &str = "name = \"calm\"\nchange = \"MINOR\"\ntag = \"Feature\"\nmodules = \"src/parser.rs\"\nmessage = \"add retry\"\nversion = \"0.5.0\"\n";

#[test]
fn a_record_lists_the_fields_line_by_line() {
    assert_eq!(
        write_record(&changeset("calm", ChangeKind::Minor, "src/parser.rs", "add retry")),
        RECORD
    );
}

#[test]
fn a_record_is_read_back() {
    assert_eq!(
        read_record(RECORD),
        Ok(changeset("calm", ChangeKind::Minor, "src/parser.rs", "add retry"))
    );
}

#[test]
fn what_is_written_is_read_back_whatever_the_fields_hold() {
    let samples = [
        changeset("", ChangeKind::Patch, "", ""),
        changeset("calm", ChangeKind::Major, "C:\\src\\a.rs", "say \"hello\""),
        changeset("two\nlines", ChangeKind::Minor, "tab\there", "first\nsecond\n"),
        changeset("ünï", ChangeKind::Patch, "🐛", "it's 'quoted' # not a comment"),
        changeset("a = 1", ChangeKind::Patch, "[table]", "'''\"\"\"\\"),
    ];
    for sample in samples {
        assert_eq!(read_record(&write_record(&sample)), Ok(sample));
    }
}

#[test]
fn the_order_of_the_keys_does_not_matter() {
    let text = "version = \"1.0.0\"\nmessage = 'm'\nmodules = \"\"\ntag = \"Bug\"\nchange = \"PATCH\"\nname = \"n\"\nextra = 3\n";
    assert_eq!(
        read_record(text),
        Ok(Changeset {
            name: "n".to_string(),
            change: ChangeKind::Patch,
            tag: "Bug".to_string(),
            modules: String::new(),
            message: "m".to_string(),
            version: "1.0.0".to_string(),
        })
    );
}

#[test]
fn a_text_that_is_no_document_is_no_record() {
    assert_eq!(read_record("name = "), Err(RecordError::NotADocument));
    assert_eq!(read_record("name = \"a\"\nname = \"b\"\n"), Err(RecordError::NotADocument));
}

#[test]
fn the_first_missing_field_is_reported() {
    let fields = [
        ("name", Field::Name),
        ("change", Field::Change),
        ("tag", Field::Tag),
        ("modules", Field::Modules),
        ("message", Field::Message),
        ("version", Field::Version),
    ];
    for (missing, field) in fields {
        let text: String = RECORD
            .lines()
            .filter(|line| !line.starts_with(&format!("{} =", missing)))
            .map(|line| format!("{}\n", line))
            .collect();
        assert_eq!(read_record(&text), Err(RecordError::Missing(field)));
    }
    assert_eq!(read_record(""), Err(RecordError::Missing(Field::Name)));
    assert_eq!(
        read_record("name = \"n\"\nchange = \"PATCH\"\n"),
        Err(RecordError::Missing(Field::Tag))
    );
}

#[test]
fn a_field_that_is_no_string_counts_as_missing() {
    let text = RECORD.replace("modules = \"src/parser.rs\"", "modules = [\"src/parser.rs\"]");
    assert_eq!(read_record(&text), Err(RecordError::Missing(Field::Modules)));
    let text = RECORD.replace("name = \"calm\"", "name = 7");
    assert_eq!(read_record(&text), Err(RecordError::Missing(Field::Name)));
}

#[test]
fn an_unknown_kind_is_rejected() {
    let text = RECORD.replace("MINOR", "minor");
    assert_eq!(read_record(&text), Err(RecordError::UnknownKind));
    let text = "name = \"n\"\nchange = \"HUGE\"\n";
    assert_eq!(read_record(text), Err(RecordError::UnknownKind));
}

#[test]
fn fields_are_checked_in_the_order_of_a_record() {
    let some = |text: &str| Some(text.to_string());
    assert_eq!(
        changeset_of_fields(
            some("n"),
            some("MAJOR"),
            some("Rename"),
            some(""),
            some("m"),
            some("2.0.0")
        ),
        Ok(Changeset {
            name: "n".to_string(),
            change: ChangeKind::Major,
            tag: "Rename".to_string(),
            modules: String::new(),
            message: "m".to_string(),
            version: "2.0.0".to_string(),
        })
    );
    assert_eq!(
        changeset_of_fields(None, None, None, None, None, None),
        Err(RecordError::Missing(Field::Name))
    );
    assert_eq!(
        changeset_of_fields(some("n"), None, None, None, None, None),
        Err(RecordError::Missing(Field::Change))
    );
    assert_eq!(
        changeset_of_fields(some("n"), some("HUGE"), None, None, None, None),
        Err(RecordError::UnknownKind)
    );
    assert_eq!(
        changeset_of_fields(None, some("HUGE"), None, None, None, None),
        Err(RecordError::Missing(Field::Name))
    );
    assert_eq!(
        changeset_of_fields(some("n"), some("PATCH"), None, some("x"), None, some("1.0.0")),
        Err(RecordError::Missing(Field::Tag))
    );
    assert_eq!(
        changeset_of_fields(some("n"), some("PATCH"), some("Bug"), None, None, None),
        Err(RecordError::Missing(Field::Modules))
    );
    assert_eq!(
        changeset_of_fields(some("n"), some("PATCH"), some("Bug"), some(""), None, None),
        Err(RecordError::Missing(Field::Message))
    );
    assert_eq!(
        changeset_of_fields(some("n"), some("PATCH"), some("Bug"), some(""), some("m"), None),
        Err(RecordError::Missing(Field::Version))
    );
}
