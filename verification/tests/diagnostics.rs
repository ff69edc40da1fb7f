use iota_logic::diagnostics::{
    make_loc, Diagnostic, DiagnosticInfo, Diagnostics, Loc, Severity, UnprefixedWarningFilters,
    WarningFilter, WarningFilters,
};

fn info(severity: Severity, category: u8, code: u8, prefix: Option<&'static str>) -> DiagnosticInfo {
    DiagnosticInfo { severity, category, code, message: "message", external_prefix: prefix }
}

fn diag(i: DiagnosticInfo) -> Diagnostic {
    let loc = Loc { file_hash: [1; 32], start: 3, end: 8 };
    Diagnostic::new(i, (loc, "here".to_string()), vec![], vec![])
}

#[test]
fn counts_follow_severities() {
    let mut ds = Diagnostics::new();
    assert!(ds.is_empty());
    assert_eq!(ds.max_severity(), None);
    ds.add(diag(info(Severity::Warning, 1, 1, None)));
    ds.add(diag(info(Severity::BlockingError, 2, 1, None)));
    ds.add(diag(info(Severity::Warning, 1, 2, Some("lint"))));
    assert_eq!(ds.len(), 3);
    assert!(!ds.is_empty());
    assert_eq!(ds.max_severity(), Some(Severity::BlockingError));
    assert_eq!(ds.count_diags_at_or_above_severity(Severity::Warning), 3);
    assert_eq!(ds.count_diags_at_or_above_severity(Severity::NonblockingError), 1);
    assert_eq!(ds.count_diags_at_or_above_severity(Severity::Bug), 0);
    assert!(ds.any_with_prefix("lint"));
    assert!(!ds.any_with_prefix("other"));
}

#[test]
fn add_opt_extend_and_into_vec_keep_order() {
    let mut a = Diagnostics::from_opt(Some(diag(info(Severity::Warning, 1, 1, None))));
    a.add_opt(None);
    a.add_opt(Some(diag(info(Severity::Bug, 9, 9, None))));
    let b = Diagnostics::from_vec(vec![diag(info(Severity::NonblockingError, 4, 4, None))]);
    a.extend(b);
    assert_eq!(a.len(), 3);
    assert_eq!(a.max_severity(), Some(Severity::Bug));
    let v = a.into_vec();
    let sev: Vec<Severity> = v.iter().map(|d| d.info().severity).collect();
    assert_eq!(sev, vec![Severity::Warning, Severity::Bug, Severity::NonblockingError]);
}

#[test]
fn source_filtered_diagnostics_are_kept_apart() {
    let mut ds = Diagnostics::new();
    ds.add_source_filtered(diag(info(Severity::Warning, 1, 1, Some("lint"))));
    ds.add_source_filtered(diag(info(Severity::Warning, 1, 2, Some("lint"))));
    ds.add_source_filtered(diag(info(Severity::Warning, 5, 1, Some("lint"))));
    ds.add_source_filtered(diag(info(Severity::Warning, 5, 1, None)));
    assert!(ds.is_empty());
    assert_eq!(ds.filtered_source_diags_with_prefix("lint"), (3, 2));
    assert_eq!(ds.filtered_source_diags_with_prefix("none"), (0, 0));
}

#[test]
fn diagnostic_parts_can_be_changed() {
    let mut d = diag(info(Severity::Warning, 1, 1, None));
    d.add_secondary_label((Loc { file_hash: [2; 32], start: 0, end: 1 }, "also".to_string()));
    d.add_note("note".to_string());
    assert_eq!(d.extra_labels_len(), 2);
    let d = d.set_severity(Severity::BlockingError);
    assert_eq!(d.info().severity, Severity::BlockingError);
    assert_eq!(d.primary_msg(), "here");
    assert!(!d.is_migration());
}

#[test]
fn filters_remove_warnings_of_their_package_only() {
    let mut f = WarningFilters::new_for_source();
    assert!(!f.for_dependency());
    f.add(WarningFilter::Category { prefix: None, category: 3, name: Some("unused") });
    assert!(f.is_filtered_by_info(&info(Severity::Warning, 3, 7, None)));
    assert!(!f.is_filtered_by_info(&info(Severity::Warning, 4, 7, None)));
    assert!(!f.is_filtered_by_info(&info(Severity::Warning, 3, 7, Some("lint"))));
    assert!(!f.is_filtered_by_info(&info(Severity::BlockingError, 3, 7, None)));
    f.add(WarningFilter::Code { prefix: Some("lint"), category: 2, code: 5, name: None });
    assert!(f.is_filtered(&diag(info(Severity::Warning, 2, 5, Some("lint")))));
    assert!(!f.is_filtered(&diag(info(Severity::Warning, 2, 6, Some("lint")))));
}

#[test]
fn union_of_filters_filters_what_either_does() {
    let mut a = WarningFilters::new_for_source();
    a.add(WarningFilter::Category { prefix: None, category: 1, name: None });
    let mut b = WarningFilters::new_for_dependency();
    b.add(WarningFilter::All(Some("lint")));
    a.union(&b);
    assert!(a.for_dependency());
    assert!(a.is_filtered_by_info(&info(Severity::Warning, 1, 0, None)));
    assert!(a.is_filtered_by_info(&info(Severity::Warning, 8, 8, Some("lint"))));
    assert!(!a.is_filtered_by_info(&info(Severity::Warning, 2, 0, None)));
}

#[test]
fn retain_keeps_matching_diagnostics_and_the_counts() {
    let mut ds = Diagnostics::from_vec(vec![
        diag(info(Severity::Warning, 1, 1, None)),
        diag(info(Severity::BlockingError, 2, 1, None)),
        diag(info(Severity::Warning, 1, 2, None)),
        diag(info(Severity::Bug, 3, 3, None)),
    ]);
    ds.retain(|d| d.info().severity != Severity::Warning);
    assert_eq!(ds.len(), 2);
    let kept: Vec<u8> = ds.into_vec().iter().map(|d| d.info().category).collect();
    assert_eq!(kept, vec![2, 3]);
    let mut ds = Diagnostics::from_vec(vec![diag(info(Severity::Warning, 1, 1, None))]);
    ds.retain(|_| false);
    assert!(ds.is_empty());
    assert_eq!(ds.count_diags_at_or_above_severity(Severity::Warning), 1);
    let mut empty = Diagnostics::new();
    empty.retain(|_| true);
    assert!(empty.is_empty());
}

#[test]
fn make_loc_keeps_hash_and_offsets() {
    assert_eq!(make_loc([3; 32], 5, 9), Loc { file_hash: [3; 32], start: 5, end: 9 });
    let far = (1usize << 32) + 7;
    assert_eq!(make_loc([3; 32], far, far + 1).start, 7);
    assert_eq!(make_loc([3; 32], far, far + 1).end, 8);
}

#[test]
fn unprefixed_filters_union_with_all_is_all() {
    use_unprefixed();
}

fn use_unprefixed() {
    let mut f = UnprefixedWarningFilters::new();
    assert_eq!(f, UnprefixedWarningFilters::Empty);
    f.union(&UnprefixedWarningFilters::All);
    assert_eq!(f, UnprefixedWarningFilters::All);
}
