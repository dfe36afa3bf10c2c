use std::cmp::Ordering;

use docker_tags::tag::{compare_names, strip_leading_v, Tag};

fn sorted(names: &[&str]) -> Vec<String> {
    let mut tags: Vec<Tag> = names.iter().map(|n| Tag::new(n)).collect();
    tags.sort_by(|a, b| a.cmp(b));
    tags.iter().map(|t| t.to_string()).collect()
}

#[test]
fn sort_versions_then_names() {
    assert_eq!(
        sorted(&["v1.2.0", "1.10.0", "latest", "v1.9.0", "alpha"]),
        vec!["1.10.0", "v1.9.0", "v1.2.0", "alpha", "latest"]
    );
}

#[test]
fn newer_version_first_with_or_without_v() {
    for (x, y) in [("2.0.0", "1.9.9"), ("1.0.0", "1.0.0-rc.1"), ("0.10.0", "0.9.0")] {
        for tx in [x.to_string(), format!("v{x}")] {
            for ty in [y.to_string(), format!("v{y}")] {
                assert_eq!(Tag::new(&tx).cmp(&Tag::new(&ty)), Ordering::Less);
                assert_eq!(Tag::new(&ty).cmp(&Tag::new(&tx)), Ordering::Greater);
            }
        }
    }
}

#[test]
fn order_is_antisymmetric_and_reflexive() {
    let names = ["latest", "alpha", "1.0.0", "v1.0.0", "v2.1.3", "v", "vv1.0.0", "1.0", "", "stable-slim"];
    for a in names {
        assert_eq!(Tag::new(a).cmp(&Tag::new(a)), Ordering::Equal);
        for b in names {
            assert_eq!(Tag::new(a).cmp(&Tag::new(b)) == Ordering::Equal, a == b);
            assert_eq!(Tag::new(a).cmp(&Tag::new(b)), Tag::new(b).cmp(&Tag::new(a)).reverse());
        }
    }
}

#[test]
fn order_is_transitive() {
    let names = ["latest", "alpha", "1.0.0", "v2.1.3", "beta", "0.1.0-alpha", "zeta"];
    for a in names {
        for b in names {
            for c in names {
                let (ta, tb, tc) = (Tag::new(a), Tag::new(b), Tag::new(c));
                if ta.cmp(&tb) == Ordering::Less && tb.cmp(&tc) == Ordering::Less {
                    assert_eq!(ta.cmp(&tc), Ordering::Less);
                }
            }
        }
    }
}

#[test]
fn version_before_name() {
    assert_eq!(Tag::new("1.0.0").cmp(&Tag::new("latest")), Ordering::Less);
    assert_eq!(Tag::new("latest").cmp(&Tag::new("v1.0.0")), Ordering::Greater);
    assert_eq!(Tag::new("1.0.0").partial_cmp(&Tag::new("a")), Some(Ordering::Less));
}

#[test]
fn only_one_leading_v_is_taken_off() {
    assert_eq!(strip_leading_v("vv1.0.0"), "v1.0.0");
    assert_eq!(strip_leading_v("v1.0.0"), "1.0.0");
    assert_eq!(strip_leading_v("1.0.0"), "1.0.0");
    assert_eq!(Tag::new("vv1.0.0").cmp(&Tag::new("zz")), Ordering::Less);
    assert_eq!(Tag::new("vv1.0.0").cmp(&Tag::new("1.0.0")), Ordering::Greater);
}

#[test]
fn names_compare_bytewise() {
    assert_eq!(compare_names("abc", "abd"), Ordering::Less);
    assert_eq!(compare_names("ab", "abc"), Ordering::Less);
    assert_eq!(compare_names("b", "abc"), Ordering::Greater);
    assert_eq!(compare_names("Z", "a"), Ordering::Less);
    assert_eq!(compare_names("é", "z"), Ordering::Greater);
    assert_eq!(compare_names("", ""), Ordering::Equal);
}

#[test]
fn equal_versions_tie_break_by_name() {
    assert_eq!(Tag::new("1.0.0").cmp(&Tag::new("v1.0.0")), Ordering::Less);
    assert_eq!(Tag::new("v1.0.0").cmp(&Tag::new("1.0.0")), Ordering::Greater);
    assert_eq!(
        sorted(&["v2.0.0", "2.0.0", "latest", "1.0.0"]),
        vec!["2.0.0", "v2.0.0", "1.0.0", "latest"]
    );
}
