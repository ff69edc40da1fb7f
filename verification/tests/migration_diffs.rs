use iota_logic::diagnostics::{
    Diagnostic, DiagnosticInfo, Diagnostics, Loc, Severity, MIGRATION_CATEGORY,
};
use iota_logic::migration::{
    generate_migration_diff, Migration, ADDRESS_ADD, NEEDS_LET_MUT, NEEDS_PUBLIC,
    NEEDS_RESTRICTED_IDENTIFIER,
};

fn migration_diag(code: u8, hash: u8, start: u32, end: u32, msg: &str) -> Diagnostic {
    let info = DiagnosticInfo {
        severity: Severity::NonblockingError,
        category: MIGRATION_CATEGORY,
        code,
        message: "migration",
        external_prefix: None,
    };
    let loc = Loc { file_hash: [hash; 32], start, end };
    Diagnostic::new(info, (loc, msg.to_string()), vec![], vec![])
}

fn sources() -> Vec<([u8; 32], String, String)> {
    vec![
        ([7; 32], "m.move".to_string(), "let x = 1;\nfun f() {}\n".to_string()),
        ([8; 32], "untouched.move".to_string(), "module a::b {}\n".to_string()),
        ([9; 32], "a.move".to_string(), "use 0x1::enum;\n".to_string()),
    ]
}

fn diags() -> Vec<Diagnostic> {
    vec![
        migration_diag(NEEDS_LET_MUT, 7, 4, 5, "x"),
        migration_diag(NEEDS_PUBLIC, 7, 11, 14, "fun"),
        migration_diag(NEEDS_LET_MUT, 7, 4, 5, "x"),
        migration_diag(NEEDS_RESTRICTED_IDENTIFIER, 9, 9, 13, "enum"),
    ]
}

#[test]
fn migration_starts_with_no_errors() {
    let (_, errors) = Migration::new(sources(), diags());
    assert!(errors.is_empty());
}

#[test]
fn migrated_sources_come_by_name_with_changes_applied_once() {
    let (mut mig, _) = Migration::new(sources(), diags());
    let out = mig.migrated_sources();
    assert_eq!(
        out,
        vec![
            ("a.move".to_string(), "use 0x1::`enum`;\n".to_string()),
            ("m.move".to_string(), "let mut x = 1;\npublic fun f() {}\n".to_string()),
        ]
    );
    // A second pass finds the changes already kept one of each.
    assert_eq!(mig.migrated_sources(), out);
}

#[test]
fn render_output_diffs_each_changed_file() {
    let (mut mig, _) = Migration::new(sources(), diags());
    let out = mig.render_output();
    let a = out.find("--- a.move\n+++ a.move\n").unwrap();
    let m = out.find("--- m.move\n+++ m.move\n").unwrap();
    assert!(a < m);
    assert!(out.contains("-use 0x1::enum;\n+use 0x1::`enum`;\n"));
    assert!(out.contains("-let x = 1;\n"));
    assert!(out.contains("+let mut x = 1;\n"));
    assert!(out.contains("+public fun f() {}\n"));
    assert!(!out.contains("untouched"));
}

#[test]
fn address_insertion_writes_the_message() {
    let (mut mig, _) = Migration::new(
        vec![([5; 32], "p.move".to_string(), "module m {}\n".to_string())],
        vec![migration_diag(ADDRESS_ADD, 5, 7, 7, "0x1::")],
    );
    assert_eq!(
        mig.migrated_sources(),
        vec![("p.move".to_string(), "module 0x1::m {}\n".to_string())]
    );
}

#[test]
fn no_diagnostics_no_output() {
    let (mut mig, _) = Migration::new(sources(), vec![]);
    assert_eq!(mig.render_output(), "");
    assert!(mig.migrated_sources().is_empty());
}

#[test]
fn generate_migration_diff_keeps_only_migration_diagnostics() {
    let mut all = Diagnostics::new();
    let other = DiagnosticInfo {
        severity: Severity::Warning,
        category: 2,
        code: 1,
        message: "unused",
        external_prefix: None,
    };
    all.add(Diagnostic::new(
        other,
        (Loc { file_hash: [42; 32], start: 0, end: 1 }, "unused".to_string()),
        vec![],
        vec![],
    ));
    assert!(generate_migration_diff(&sources(), &all).is_none());
    all.add(migration_diag(NEEDS_LET_MUT, 7, 4, 5, "x"));
    let (mut mig, errors) = generate_migration_diff(&sources(), &all).unwrap();
    assert!(errors.is_empty());
    assert_eq!(
        mig.migrated_sources(),
        vec![("m.move".to_string(), "let mut x = 1;\nfun f() {}\n".to_string())]
    );
}

#[test]
fn overlapping_changes_cannot_be_rendered() {
    let (mig, _) = Migration::new(
        sources(),
        vec![
            migration_diag(NEEDS_PUBLIC, 7, 0, 5, "a"),
            migration_diag(NEEDS_RESTRICTED_IDENTIFIER, 7, 2, 6, "b"),
        ],
    );
    assert!(!mig.can_render());
    let (ok, _) = Migration::new(sources(), diags());
    assert!(ok.can_render());
}
