use changeforge::bump::{
    bump_version, calculate_next_version, highest_change, next_version_of, BumpError,
};
use changeforge::changeset::ChangeKind::{Major, Minor, Patch};
use changeforge::changeset::{ChangeKind, Changeset};
use changeforge::number::{append_decimal, parse_number};
use changeforge::version::{find_largest_version, parse_version, version_at_most, Version};

fn changeset(change: ChangeKind, version: &str) -> Changeset {
    Changeset {
        name: "sample".to_string(),
        change,
        tag: "Bug".to_string(),
        modules: String::new(),
        message: "a change".to_string(),
        version: version.to_string(),
    }
}

fn recorded(versions: &[&str]) -> Vec<Changeset> {
    versions.iter().map(|v| changeset(ChangeKind::Patch, v)).collect()
}

fn of_kinds(kinds: &[ChangeKind]) -> Vec<Changeset> {
    kinds.iter().map(|k| changeset(*k, "0.0.0")).collect()
}

fn number_in(text: &str) -> Option<u32> {
    let chars: Vec<char> = text.chars().collect();
    parse_number(&chars, 0, chars.len())
}

#[test]
fn bump_arithmetic_on_one_two_three() {
    assert_eq!(calculate_next_version("1.2.3", "MAJOR"), Ok("2.0.0".to_string()));
    assert_eq!(calculate_next_version("1.2.3", "MINOR"), Ok("1.3.0".to_string()));
    assert_eq!(calculate_next_version("1.2.3", "PATCH"), Ok("1.2.4".to_string()));
}

#[test]
fn bump_carries_into_more_digits() {
    assert_eq!(calculate_next_version("9.9.9", "PATCH"), Ok("9.9.10".to_string()));
    assert_eq!(calculate_next_version("9.99.9", "MINOR"), Ok("9.100.0".to_string()));
    assert_eq!(calculate_next_version("0.0.0", "MAJOR"), Ok("1.0.0".to_string()));
}

#[test]
fn unknown_kind_is_rejected() {
    assert_eq!(calculate_next_version("1.2.3", "major"), Err(BumpError::UnknownKind));
    assert_eq!(calculate_next_version("1.2.3", ""), Err(BumpError::UnknownKind));
    assert_eq!(calculate_next_version("1.2.3", "PATCH "), Err(BumpError::UnknownKind));
    assert_eq!(calculate_next_version("nonsense", "HOTFIX"), Err(BumpError::UnknownKind));
}

#[test]
fn current_version_must_be_three_numbers() {
    assert_eq!(calculate_next_version("1.2", "PATCH"), Err(BumpError::InvalidVersion));
    assert_eq!(calculate_next_version("1.2.3.4", "PATCH"), Err(BumpError::InvalidVersion));
    assert_eq!(calculate_next_version("1.x.3", "PATCH"), Err(BumpError::InvalidVersion));
    assert_eq!(calculate_next_version("", "PATCH"), Err(BumpError::InvalidVersion));
    assert_eq!(calculate_next_version("1..3", "PATCH"), Err(BumpError::InvalidVersion));
    assert_eq!(calculate_next_version("v1.2.3", "PATCH"), Err(BumpError::InvalidVersion));
}

#[test]
fn the_largest_number_cannot_be_raised() {
    assert_eq!(calculate_next_version("4294967295.0.0", "MAJOR"), Err(BumpError::Overflow));
    assert_eq!(calculate_next_version("0.4294967295.0", "MINOR"), Err(BumpError::Overflow));
    assert_eq!(calculate_next_version("0.0.4294967295", "PATCH"), Err(BumpError::Overflow));
    assert_eq!(
        calculate_next_version("4294967295.4294967295.7", "PATCH"),
        Ok("4294967295.4294967295.8".to_string())
    );
    assert_eq!(
        calculate_next_version("4294967294.5.5", "MAJOR"),
        Ok("4294967295.0.0".to_string())
    );
}

#[test]
fn leading_zeros_are_read_and_not_written() {
    assert_eq!(calculate_next_version("01.02.03", "PATCH"), Ok("1.2.4".to_string()));
}

#[test]
fn kinds_have_their_names() {
    assert_eq!(ChangeKind::parse("MAJOR"), Some(ChangeKind::Major));
    assert_eq!(ChangeKind::parse("MINOR"), Some(ChangeKind::Minor));
    assert_eq!(ChangeKind::parse("PATCH"), Some(ChangeKind::Patch));
    assert_eq!(ChangeKind::parse("Patch"), None);
    assert_eq!(ChangeKind::Major.name(), "MAJOR");
    assert_eq!(ChangeKind::Minor.name(), "MINOR");
    assert_eq!(ChangeKind::Patch.name(), "PATCH");
}

#[test]
fn strict_reading_of_versions() {
    assert_eq!(Version::parse("1.2.3"), Some(Version { major: 1, minor: 2, patch: 3 }));
    assert_eq!(Version::parse("+1.2.3"), Some(Version { major: 1, minor: 2, patch: 3 }));
    assert_eq!(Version::parse("1.x.2.3"), None);
    assert_eq!(Version::parse("1.2.3 "), None);
    assert_eq!(Version::parse("4294967296.0.0"), None);
    assert_eq!(Version::parse("-1.0.0"), None);
}

#[test]
fn a_version_written_out_reads_back() {
    let versions = [
        Version { major: 0, minor: 0, patch: 0 },
        Version { major: 10, minor: 200, patch: 3000 },
        Version { major: 4294967295, minor: 0, patch: 4294967295 },
    ];
    for v in versions {
        assert_eq!(Version::parse(&v.render()), Some(v));
        assert_eq!(v.render(), format!("{}.{}.{}", v.major, v.minor, v.patch));
    }
}

#[test]
fn bump_of_a_version_value() {
    let v = Version { major: 3, minor: 4, patch: 5 };
    assert_eq!(v.bump(ChangeKind::Major), Some(Version { major: 4, minor: 0, patch: 0 }));
    assert_eq!(v.bump(ChangeKind::Minor), Some(Version { major: 3, minor: 5, patch: 0 }));
    assert_eq!(v.bump(ChangeKind::Patch), Some(Version { major: 3, minor: 4, patch: 6 }));
    let top = Version { major: u32::MAX, minor: u32::MAX, patch: u32::MAX };
    assert_eq!(top.bump(ChangeKind::Major), None);
    assert_eq!(top.bump(ChangeKind::Minor), None);
    assert_eq!(top.bump(ChangeKind::Patch), None);
}

#[test]
fn lenient_reading_never_fails() {
    assert_eq!(parse_version("1.2.3"), Some((1, 2, 3)));
    assert_eq!(parse_version("1.2"), Some((0, 0, 0)));
    assert_eq!(parse_version("1.2.3.4"), Some((0, 0, 0)));
    assert_eq!(parse_version(""), Some((0, 0, 0)));
    assert_eq!(parse_version("not a version"), Some((0, 0, 0)));
}

#[test]
fn lenient_reading_drops_what_is_no_number() {
    assert_eq!(parse_version("1.x.2.3"), Some((1, 2, 3)));
    assert_eq!(parse_version("a.1.2.3"), Some((1, 2, 3)));
    assert_eq!(parse_version("1.2.3."), Some((1, 2, 3)));
    assert_eq!(parse_version(".1..2.3"), Some((1, 2, 3)));
    assert_eq!(parse_version("+1.+2.+3"), Some((1, 2, 3)));
    assert_eq!(parse_version("4294967296.1.2.3"), Some((1, 2, 3)));
    assert_eq!(parse_version("1.2.3-rc1"), Some((0, 0, 0)));
}

#[test]
fn numbers_are_read_as_the_standard_library_reads_them() {
    let samples = [
        "", "0", "7", "007", "+7", "+", "++7", "-7", "+-7", "7+", " 7", "7 ", "1_000", "4294967295",
        "4294967296", "42949672950", "99999999999999999999999999", "00000000000000000000000001",
        "١٢٣", "1a", "a1", "0x10", "1.0", "１２",
    ];
    for s in samples {
        assert_eq!(number_in(s), s.parse::<u32>().ok(), "reading {:?}", s);
    }
}

#[test]
fn a_number_is_read_from_the_middle_of_a_text() {
    let chars: Vec<char> = "ab123cd".chars().collect();
    assert_eq!(parse_number(&chars, 2, 5), Some(123));
    assert_eq!(parse_number(&chars, 2, 6), None);
    assert_eq!(parse_number(&chars, 3, 3), None);
}

#[test]
fn numbers_are_written_in_decimal() {
    for n in [0u32, 1, 9, 10, 11, 99, 100, 101, 4096, 1000000, 4294967295] {
        let mut out = String::from("v");
        append_decimal(&mut out, n);
        assert_eq!(out, format!("v{}", n));
    }
}

#[test]
fn largest_version_of_three() {
    let changesets = recorded(&["1.0.0", "2.1.0", "1.9.9"]);
    assert_eq!(find_largest_version(&changesets), Some("2.1.0".to_string()));
}

#[test]
fn largest_version_of_none() {
    assert_eq!(find_largest_version(&[]), None);
}

#[test]
fn largest_version_compares_numbers_not_text() {
    assert_eq!(
        find_largest_version(&recorded(&["1.9.0", "1.10.0", "1.2.99"])),
        Some("1.10.0".to_string())
    );
    assert_eq!(find_largest_version(&recorded(&["0.0.9", "0.1.0"])), Some("0.1.0".to_string()));
    assert_eq!(find_largest_version(&recorded(&["3.0.0", "2.9.9"])), Some("3.0.0".to_string()));
}

#[test]
fn a_record_without_a_version_counts_as_zero() {
    assert_eq!(find_largest_version(&recorded(&["garbage"])), Some("0.0.0".to_string()));
    assert_eq!(
        find_largest_version(&recorded(&["garbage", "0.0.1", "1.2"])),
        Some("0.0.1".to_string())
    );
}

#[test]
fn versions_are_ordered_by_major_minor_patch() {
    assert!(version_at_most((1, 2, 3), (1, 2, 3)));
    assert!(version_at_most((1, 2, 3), (1, 2, 4)));
    assert!(version_at_most((1, 9, 9), (2, 0, 0)));
    assert!(version_at_most((1, 2, 9), (1, 3, 0)));
    assert!(!version_at_most((1, 2, 4), (1, 2, 3)));
    assert!(!version_at_most((2, 0, 0), (1, 9, 9)));
    assert!(!version_at_most((1, 3, 0), (1, 2, 9)));
}

#[test]
fn the_heaviest_change_is_found() {
    assert_eq!(highest_change(&of_kinds(&[])), None);
    assert_eq!(highest_change(&of_kinds(&[Patch])), Some(Patch));
    assert_eq!(highest_change(&of_kinds(&[Patch, Minor])), Some(Minor));
    assert_eq!(highest_change(&of_kinds(&[Minor, Patch, Patch, Patch])), Some(Minor));
    assert_eq!(highest_change(&of_kinds(&[Patch, Major, Minor])), Some(Major));
    assert_eq!(highest_change(&of_kinds(&[Major])), Some(Major));
}

#[test]
fn minor_outweighs_patch() {
    let pending = of_kinds(&[Patch, Minor]);
    assert_eq!(bump_version("1.2.3", &pending), Ok("1.3.0".to_string()));
    assert_eq!(bump_version("1.2.3", &pending), next_version_of("1.2.3", Minor));
    assert_ne!(bump_version("1.2.3", &pending), next_version_of("1.2.3", Patch));
}

#[test]
fn the_next_version_does_not_depend_on_order_or_number() {
    let orders: [&[ChangeKind]; 4] = [
        &[Patch, Minor, Major],
        &[Major, Minor, Patch],
        &[Minor, Major, Patch, Patch, Minor],
        &[Major, Patch, Major, Minor],
    ];
    for order in orders {
        assert_eq!(bump_version("0.9.4", &of_kinds(order)), Ok("1.0.0".to_string()));
    }
    let again = of_kinds(&[Patch, Patch]);
    assert_eq!(bump_version("0.9.4", &again), bump_version("0.9.4", &again));
    assert_eq!(bump_version("0.9.4", &again), Ok("0.9.5".to_string()));
}

#[test]
fn nothing_pending_gives_no_version() {
    assert_eq!(bump_version("1.2.3", &[]), Err(BumpError::NothingPending));
}

#[test]
fn the_recorded_version_decides_nothing_at_release() {
    let pending = vec![changeset(ChangeKind::Patch, "9.9.9")];
    assert_eq!(bump_version("1.0.0", &pending), Ok("1.0.1".to_string()));
}

#[test]
fn a_release_needs_a_current_version() {
    let pending = of_kinds(&[ChangeKind::Patch]);
    assert_eq!(bump_version("one.two.three", &pending), Err(BumpError::InvalidVersion));
    assert_eq!(bump_version("0.0.4294967295", &pending), Err(BumpError::Overflow));
}
