use kdl_bind::doc::{KdlEntry, KdlNode, KdlValue, NodeKey, Span};
use kdl_bind::error::{
    merge2, merge3, merge5, merge_vec, KdlBindDiagnostic, KdlBindError, MergeKdlBindError,
    Severity,
};

fn s(x: &str) -> String {
    x.to_string()
}

fn leaf(msg: &str) -> KdlBindError {
    KdlBindError::err(&s("src"), s(msg), Some(Span::new(1, 2)))
}

fn messages(e: &KdlBindError) -> Vec<String> {
    e.diagnostics
        .iter()
        .map(|d| d.message.clone().unwrap_or_default())
        .collect()
}

#[test]
fn merge2_keeps_both_failures_in_order() {
    let r: Result<((), ()), KdlBindError> = merge2::<(), ()>(Err(leaf("a")), Err(leaf("b")));
    let err = r.unwrap_err();
    assert_eq!(messages(&err), vec![s("a"), s("b")]);
}

#[test]
fn merge2_single_failure_passes_through() {
    let r = merge2::<i32, i32>(Ok(1), Err(leaf("b")));
    assert_eq!(messages(&r.unwrap_err()), vec![s("b")]);
    let r = merge2::<i32, i32>(Err(leaf("a")), Ok(2));
    assert_eq!(messages(&r.unwrap_err()), vec![s("a")]);
    let r = merge2::<i32, i32>(Ok(1), Ok(2));
    assert_eq!(r.unwrap(), (1, 2));
}

#[test]
fn merge3_collects_every_failure_in_element_order() {
    let r = merge3::<i32, i32, i32>(Err(leaf("a")), Ok(5), Err(leaf("c")));
    assert_eq!(messages(&r.unwrap_err()), vec![s("a"), s("c")]);
}

#[test]
fn merge5_collects_every_failure_in_element_order() {
    let r = merge5::<i32, i32, i32, i32, i32>(
        Err(leaf("a")),
        Err(leaf("b")),
        Ok(1),
        Err(leaf("d")),
        Err(leaf("e")),
    );
    assert_eq!(messages(&r.unwrap_err()), vec![s("a"), s("b"), s("d"), s("e")]);
}

#[test]
fn merge_vec_all_ok_keeps_values_in_order() {
    let r = merge_vec::<i32>(vec![Ok(1), Ok(2), Ok(3)]);
    assert_eq!(r.unwrap(), vec![1, 2, 3]);
}

#[test]
fn merge_vec_collects_all_failures() {
    let r = merge_vec::<i32>(vec![Err(leaf("a")), Ok(2), Err(leaf("c"))]);
    assert_eq!(messages(&r.unwrap_err()), vec![s("a"), s("c")]);
}

#[test]
fn merge_vec_empty_is_ok() {
    let r = merge_vec::<i32>(vec![]);
    assert_eq!(r.unwrap(), Vec::<i32>::new());
}

#[test]
fn merge_trait_mirrors_the_free_functions() {
    let pair: (Result<i32, KdlBindError>, Result<i32, KdlBindError>) =
        (Err(leaf("a")), Err(leaf("b")));
    let err = pair.merge().unwrap_err();
    assert_eq!(messages(&err), vec![s("a"), s("b")]);

    let list: Vec<Result<i32, KdlBindError>> = vec![Ok(7), Ok(8)];
    assert_eq!(list.merge().unwrap(), vec![7, 8]);
}

#[test]
fn merge_is_associative_on_diagnostics() {
    // merging a merged pair with a third carries the same diagnostics as
    // merging the first with a merged pair of the others
    let left = merge2::<((), ()), ()>(
        merge2::<(), ()>(Err(leaf("a")), Err(leaf("b"))),
        Err(leaf("c")),
    );
    let right = merge2::<(), ((), ())>(
        Err(leaf("a")),
        merge2::<(), ()>(Err(leaf("b")), Err(leaf("c"))),
    );
    assert_eq!(messages(&left.unwrap_err()), messages(&right.unwrap_err()));
}

#[test]
fn error_with_no_diagnostics_is_not_a_failure() {
    let e = KdlBindError::new(s("src"));
    assert!(!e.is_failure());
}

#[test]
fn warning_only_error_is_not_a_failure() {
    let e = KdlBindError {
        display: None,
        source: s("src"),
        diagnostics: vec![KdlBindDiagnostic::new(s("src"), Severity::Warning)],
    };
    assert!(!e.is_failure());
}

#[test]
fn error_severity_is_a_failure() {
    assert!(leaf("boom").is_failure());
}

#[test]
fn merge_two_concatenates_and_keeps_first_source() {
    let a = leaf("a");
    let b = leaf("b");
    let merged = a.merge_two(b);
    assert_eq!(messages(&merged), vec![s("a"), s("b")]);
    assert_eq!(merged.source, "src");
}

#[test]
fn merge_list_of_errors_concatenates_in_order() {
    let merged = KdlBindError::merge(vec![leaf("a"), leaf("b"), leaf("c")]);
    assert_eq!(messages(&merged), vec![s("a"), s("b"), s("c")]);
}

#[test]
fn leaf_error_carries_span_and_severity() {
    let e = leaf("boom");
    assert_eq!(e.diagnostics.len(), 1);
    assert_eq!(e.diagnostics[0].span, Some(Span::new(1, 2)));
    assert_eq!(e.diagnostics[0].severity, Severity::Error);
    assert_eq!(e.diagnostics[0].source, "src");
    assert!(e.display.is_none());
}

#[test]
fn missing_property_message_names_the_key() {
    let node = KdlNode::new(
        s("plane"),
        vec![KdlEntry::arg(KdlValue::Integer(1), Span::new(0, 0))],
        None,
        Span::new(0, 0),
    );
    let err = node
        .must_get_number(NodeKey::Key(s("pt")), &s("src"))
        .unwrap_err();
    assert_eq!(
        err.diagnostics[0].message.as_deref(),
        Some("Element missing property 'pt'")
    );
    // a missing argument is reported with its decimal position
    let err = node
        .must_get_number(NodeKey::Index(12), &s("src"))
        .unwrap_err();
    assert_eq!(
        err.diagnostics[0].message.as_deref(),
        Some("Element missing argument 12")
    );
}

#[test]
fn wrong_type_message_reports_expected_and_actual() {
    let node = KdlNode::new(
        s("text"),
        vec![KdlEntry::arg(KdlValue::Integer(3), Span::new(4, 1))],
        None,
        Span::new(0, 0),
    );
    let err = node.must_get_string(NodeKey::Index(0), &s("src")).unwrap_err();
    assert_eq!(
        err.diagnostics[0].message.as_deref(),
        Some("Element value has type integer but should have been string")
    );
    assert_eq!(err.diagnostics[0].span, Some(Span::new(4, 1)));
}
