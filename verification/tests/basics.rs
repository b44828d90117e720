use sin90::ids::{has_id, IdSet};
use sin90::json::{Fields, Json};
use sin90::model::Capability;
use sin90::text::{is_before, join3, join5, number_text, same_text};

#[test]
fn texts_are_ordered_by_their_bytes() {
    for (a, b) in [("", "a"), ("a", "ab"), ("2026-09-01", "2026-09-02"), ("z", "é"), ("é", "字")] {
        assert!(is_before(a, b), "{a} {b}");
        assert!(!is_before(b, a), "{b} {a}");
        assert_eq!(is_before(a, b), a < b);
    }
    assert!(!is_before("same", "same"));
    assert!(same_text("字", "字"));
    assert!(!same_text("a", "b"));
    assert!(!same_text("a", "ab"));
}

#[test]
fn numbers_are_written_without_leading_zeros() {
    assert_eq!(number_text(0, 10), "0");
    assert_eq!(number_text(u32::MAX, 10), "4294967295");
    assert_eq!(number_text(0o640, 8), "640");
    assert_eq!(number_text(5, 2), "101");
    assert_eq!(join3("a", "", "c"), "ac");
    assert_eq!(join5("a", "b", "c", "d", "e"), "abcde");
}

#[test]
fn an_id_set_holds_each_id_once() {
    let v: Vec<String> = ["b", "a", "b"].iter().map(|s| s.to_string()).collect();
    let mut s = IdSet::from_ids(&v);
    assert_eq!(s.to_vec(), ["b", "a"]);
    assert!(s.contains("a") && !s.contains("c"));
    assert!(has_id(&v, "b") && !has_id(&v, ""));
    assert!(IdSet::new().is_empty() && !s.is_empty());
    assert!(IdSet::new().is_subset(&s));
    s.insert("c");
    assert!(!s.is_subset(&IdSet::from_ids(&v)));
    assert!(IdSet::from_ids(&v).is_subset(&s));
    assert!(s.same_as(&IdSet::from_ids(&vec!["c".into(), "a".into(), "b".into()])));
}

#[test]
fn a_copied_value_is_the_same_value() {
    let j = Fields::new()
        .with("a", Json::List(vec![Json::Bool(true), Json::Null]))
        .with("b", Json::Number("1.50".into()))
        .object();
    assert_eq!(format!("{:?}", j.copy()), format!("{j:?}"));
}

#[test]
fn capabilities_have_their_wire_names() {
    assert_eq!(Capability::Classify.as_str(), "classify");
    assert_eq!(Capability::Propose.as_str(), "propose");
    assert_eq!(Capability::Summarize.as_str(), "summarize");
}
