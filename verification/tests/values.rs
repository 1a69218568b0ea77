use lock_sync::lock::{contains_text, Edge, Gate};
use lock_sync::marker::{Fact, Marker, MarkerEnvironment};
use lock_sync::text::quote;
use lock_sync::version::{Bound, Comparator, Order, Version, VersionRange};

fn v(release: &[u64]) -> Version {
    Version::new(release.to_vec())
}

fn env(facts: &[(&str, &str)]) -> MarkerEnvironment {
    MarkerEnvironment::new(
        facts.iter().map(|(k, x)| Fact { key: String::from(*k), value: String::from(*x) }).collect(),
    )
}

fn is(key: &str, value: &str) -> Marker {
    Marker::Is { key: String::from(key), value: String::from(value) }
}

fn is_not(key: &str, value: &str) -> Marker {
    Marker::IsNot { key: String::from(key), value: String::from(value) }
}

#[test]
fn versions_are_ordered_by_their_first_difference() {
    assert_eq!(v(&[3, 8]).compare(&v(&[3, 9])), Order::Before);
    assert_eq!(v(&[3, 10]).compare(&v(&[3, 9])), Order::After);
    assert_eq!(v(&[3, 9]).compare(&v(&[3, 9])), Order::Same);
    assert_eq!(v(&[3, 9]).compare(&v(&[3, 9, 0])), Order::Same);
    assert_eq!(v(&[3, 9, 0, 0]).compare(&v(&[3, 9])), Order::Same);
    assert_eq!(v(&[3, 9]).compare(&v(&[3, 9, 1])), Order::Before);
    assert_eq!(v(&[3, 9, 1]).compare(&v(&[3, 9])), Order::After);
    assert_eq!(v(&[4]).compare(&v(&[3, 99, 99])), Order::After);
    assert_eq!(v(&[]).compare(&v(&[0, 0])), Order::Same);
    assert_eq!(v(&[]).compare(&v(&[0, 1])), Order::Before);
    assert_eq!(v(&[u64::MAX]).compare(&v(&[u64::MAX, 0])), Order::Same);
}

#[test]
fn bounds_admit_by_their_comparator() {
    let at = v(&[3, 9]);
    let cases = [
        (Comparator::AtLeast, [false, true, true]),
        (Comparator::Above, [false, false, true]),
        (Comparator::AtMost, [true, true, false]),
        (Comparator::Below, [true, false, false]),
        (Comparator::Exactly, [false, true, false]),
        (Comparator::Except, [true, false, true]),
    ];
    for (how, expected) in cases {
        let bound = Bound::new(how, at.duplicate());
        assert_eq!(bound.admits(&v(&[3, 8])), expected[0]);
        assert_eq!(bound.admits(&v(&[3, 9, 0])), expected[1]);
        assert_eq!(bound.admits(&v(&[3, 10])), expected[2]);
    }
}

#[test]
fn range_holds_what_all_its_bounds_admit() {
    let range = VersionRange::new(vec![
        Bound::new(Comparator::AtLeast, v(&[3, 9])),
        Bound::new(Comparator::Below, v(&[3, 12])),
        Bound::new(Comparator::Except, v(&[3, 10, 2])),
    ]);
    assert!(range.contains(&v(&[3, 9])));
    assert!(range.contains(&v(&[3, 11, 9])));
    assert!(range.contains(&v(&[3, 10, 1])));
    assert!(!range.contains(&v(&[3, 10, 2])));
    assert!(!range.contains(&v(&[3, 8])));
    assert!(!range.contains(&v(&[3, 12])));
    assert!(VersionRange::new(vec![]).contains(&v(&[0])));
    assert_eq!(range.duplicate(), range);
    assert_eq!(v(&[3, 9, 1]).duplicate(), v(&[3, 9, 1]));
}

#[test]
fn markers_are_evaluated_against_the_facts() {
    let linux = env(&[("sys_platform", "linux"), ("os_name", "posix"), ("sys_platform", "win32")]);
    assert!(Marker::Always.evaluate(&linux));
    assert!(Marker::Always.evaluate(&env(&[])));
    assert!(is("sys_platform", "linux").evaluate(&linux));
    assert!(!is("sys_platform", "win32").evaluate(&linux));
    assert!(!is("sys_platform", "darwin").evaluate(&linux));
    assert!(!is("platform_machine", "x86_64").evaluate(&linux));
    assert!(is_not("sys_platform", "darwin").evaluate(&linux));
    assert!(is_not("sys_platform", "win32").evaluate(&linux));
    assert!(!is_not("sys_platform", "linux").evaluate(&linux));
    assert!(is_not("platform_machine", "x86_64").evaluate(&linux));
    let both = |l: Marker, r: Marker| Marker::Both(Box::new(l), Box::new(r));
    let either = |l: Marker, r: Marker| Marker::Either(Box::new(l), Box::new(r));
    assert!(both(is("sys_platform", "linux"), is("os_name", "posix")).evaluate(&linux));
    assert!(!both(is("sys_platform", "linux"), is("os_name", "nt")).evaluate(&linux));
    assert!(!both(is("sys_platform", "darwin"), is("os_name", "posix")).evaluate(&linux));
    assert!(either(is("sys_platform", "darwin"), is("os_name", "posix")).evaluate(&linux));
    assert!(either(is("sys_platform", "linux"), is("os_name", "nt")).evaluate(&linux));
    assert!(!either(is("sys_platform", "darwin"), is("os_name", "nt")).evaluate(&linux));
    let nested = either(
        both(is("sys_platform", "darwin"), is("os_name", "posix")),
        both(is_not("sys_platform", "darwin"), either(is("os_name", "nt"), Marker::Always)),
    );
    assert!(nested.evaluate(&linux));
    assert!(Marker::Always.is_always());
    assert!(!is("a", "b").is_always());
    assert!(linux.states(&String::from("os_name"), &String::from("posix")));
    assert!(!linux.states(&String::from("os_name"), &String::from("nt")));
}

#[test]
fn texts_are_quoted_and_found() {
    assert_eq!(quote("sys_platform == 'linux'"), "`sys_platform == 'linux'`");
    assert_eq!(quote(""), "``");
    let texts = vec![String::from("a"), String::from("bc")];
    assert!(contains_text(&texts, &String::from("bc")));
    assert!(!contains_text(&texts, &String::from("b")));
    assert!(!contains_text(&vec![], &String::from("")));
}

#[test]
fn edge_is_followed_by_its_gate_and_marker() {
    let linux = env(&[("sys_platform", "linux")]);
    let extras = vec![String::from("cli"), String::from("dev")];
    let none: Vec<String> = vec![];
    let plain = Edge { target: 0, gate: Gate::Always, marker: Marker::Always };
    assert!(plain.is_followed(&linux, &none, false));
    let cli = Edge { target: 0, gate: Gate::Extra(String::from("cli")), marker: Marker::Always };
    assert!(cli.is_followed(&linux, &extras, false));
    assert!(!cli.is_followed(&linux, &none, true));
    let dev = Edge { target: 0, gate: Gate::Development, marker: Marker::Always };
    assert!(!dev.is_followed(&linux, &extras, false));
    assert!(!dev.is_followed(&linux, &none, false));
    assert!(dev.is_followed(&linux, &none, true));
    let gated = Edge { target: 0, gate: Gate::Development, marker: is("sys_platform", "win32") };
    assert!(!gated.is_followed(&linux, &none, true));
    let gated = Edge { target: 0, gate: Gate::Always, marker: is("sys_platform", "win32") };
    assert!(!gated.is_followed(&linux, &extras, true));
}
