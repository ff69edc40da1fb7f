use iota_logic::migration::{
    ensure_unique_changes, render_changes, sort_changes_by_start, ByteSpan, MigrationChange,
};

fn span(start: usize, end: usize) -> ByteSpan {
    ByteSpan { start, end }
}

fn render(source: &str, mut changes: Vec<(ByteSpan, MigrationChange)>) -> String {
    String::from_utf8(render_changes(source.as_bytes(), &mut changes)).unwrap()
}

#[test]
fn additions_go_before_their_span() {
    let src = "let x = 1; fun f() {}";
    let out = render(
        src,
        vec![(span(11, 14), MigrationChange::AddPublic), (span(4, 5), MigrationChange::AddMut)],
    );
    assert_eq!(out, "let mut x = 1; public fun f() {}");
}

#[test]
fn replacements_take_the_place_of_their_span() {
    let src = "use 0x1::enum; friend a::b; public(friend) fun g()";
    let out = render(
        src,
        vec![
            (span(9, 13), MigrationChange::Backquote("enum".to_string())),
            (span(15, 27), MigrationChange::RemoveFriend),
            (span(28, 42), MigrationChange::MakePubPackage),
        ],
    );
    assert_eq!(out, "use 0x1::`enum`; /* friend a::b; */ public(package) fun g()");
}

#[test]
fn qualification_and_addresses() {
    let src = "x::y(); address 0x1 { module m {} }";
    let out = render(
        src,
        vec![
            (span(8, 22), MigrationChange::AddressRemove),
            (span(0, 0), MigrationChange::AddGlobalQual),
            (span(29, 29), MigrationChange::AddressAdd("0x1::".to_string())),
        ],
    );
    assert_eq!(out, "::x::y(); /* address 0x1 {  */module 0x1::m {} }");
}

#[test]
fn no_changes_leave_the_source() {
    assert_eq!(render("unchanged", vec![]), "unchanged");
}

#[test]
fn sorting_is_by_start_and_keeps_ties_in_order() {
    let mut changes = vec![
        (span(9, 9), MigrationChange::AddMut),
        (span(2, 2), MigrationChange::AddressAdd("b".to_string())),
        (span(2, 2), MigrationChange::AddressAdd("a".to_string())),
        (span(0, 1), MigrationChange::RemoveFriend),
    ];
    sort_changes_by_start(&mut changes);
    assert_eq!(
        changes,
        vec![
            (span(0, 1), MigrationChange::RemoveFriend),
            (span(2, 2), MigrationChange::AddressAdd("b".to_string())),
            (span(2, 2), MigrationChange::AddressAdd("a".to_string())),
            (span(9, 9), MigrationChange::AddMut),
        ]
    );
}

#[test]
fn empty_spans_at_one_place_are_applied_in_order() {
    let out = render(
        "fun",
        vec![
            (span(0, 0), MigrationChange::AddPublic),
            (span(0, 0), MigrationChange::AddressAdd("entry ".to_string())),
        ],
    );
    assert_eq!(out, "public entry fun");
}

#[test]
fn unique_changes_are_sorted_by_span_kind_and_text() {
    let mut changes = vec![
        (span(5, 9), MigrationChange::AddressAdd("b".to_string())),
        (span(5, 9), MigrationChange::AddMut),
        (span(1, 2), MigrationChange::RemoveFriend),
        (span(5, 9), MigrationChange::AddressAdd("a".to_string())),
        (span(5, 6), MigrationChange::MakePubPackage),
        (span(1, 2), MigrationChange::RemoveFriend),
        (span(5, 9), MigrationChange::AddressAdd("b".to_string())),
        (span(5, 9), MigrationChange::Backquote("zz".to_string())),
    ];
    ensure_unique_changes(&mut changes);
    assert_eq!(
        changes,
        vec![
            (span(1, 2), MigrationChange::RemoveFriend),
            (span(5, 6), MigrationChange::MakePubPackage),
            (span(5, 9), MigrationChange::AddMut),
            (span(5, 9), MigrationChange::Backquote("zz".to_string())),
            (span(5, 9), MigrationChange::AddressAdd("a".to_string())),
            (span(5, 9), MigrationChange::AddressAdd("b".to_string())),
        ]
    );
}

#[test]
fn unique_changes_of_nothing_is_nothing() {
    let mut changes: Vec<(ByteSpan, MigrationChange)> = vec![];
    ensure_unique_changes(&mut changes);
    assert!(changes.is_empty());
}

#[test]
fn unique_changes_twice_are_unique_changes_once() {
    let mut changes = vec![
        (span(3, 4), MigrationChange::AddPublic),
        (span(0, 1), MigrationChange::AddMut),
        (span(3, 4), MigrationChange::AddPublic),
        (span(0, 1), MigrationChange::Backquote("x".to_string())),
    ];
    ensure_unique_changes(&mut changes);
    let once: Vec<(ByteSpan, MigrationChange)> = changes
        .iter()
        .map(|(s, c)| {
            (
                *s,
                match c {
                    MigrationChange::Backquote(n) => MigrationChange::Backquote(n.clone()),
                    MigrationChange::AddMut => MigrationChange::AddMut,
                    _ => MigrationChange::AddPublic,
                },
            )
        })
        .collect();
    ensure_unique_changes(&mut changes);
    assert_eq!(changes, once);
    assert_eq!(changes.len(), 3);
}
