use iota_logic::diagnostics::Loc;
use iota_logic::migration::ByteSpan;
use iota_logic::source_files::MappedFiles;

const TEXT: &str = "foo\nbar\r\n\nbaz";

fn files() -> MappedFiles {
    MappedFiles::new(vec![
        ([1; 32], "a.move".to_string(), TEXT.to_string()),
        ([2; 32], "b.move".to_string(), "aé\nb".to_string()),
    ])
}

#[test]
fn hashes_stand_for_files_in_order() {
    let m = files();
    assert_eq!(m.file_hash_to_file_id(&[1; 32]), Some(0));
    assert_eq!(m.file_hash_to_file_id(&[2; 32]), Some(1));
    assert_eq!(m.file_hash_to_file_id(&[3; 32]), None);
}

#[test]
fn empty_files_know_no_hash() {
    let m = MappedFiles::empty();
    assert_eq!(m.file_hash_to_file_id(&[1; 32]), None);
}

#[test]
fn adding_under_a_known_hash_takes_it_over() {
    let mut m = files();
    m.add([1; 32], "c.move".to_string(), "x".to_string());
    assert_eq!(m.file_hash_to_file_id(&[1; 32]), Some(2));
    assert_eq!(m.file_hash_to_file_id(&[2; 32]), Some(1));
    m.add([4; 32], "d.move".to_string(), "y".to_string());
    assert_eq!(m.file_hash_to_file_id(&[4; 32]), Some(3));
}

#[test]
fn byte_location_keeps_the_offsets() {
    let m = files();
    let span = m.byte_location(Loc { file_hash: [2; 32], start: 1, end: 4 });
    assert_eq!(span.file_id, 1);
    assert_eq!(span.byte_span, ByteSpan { start: 1, end: 4 });
}

#[test]
fn location_counts_lines_and_columns() {
    let m = files();
    let at = m.location(Loc { file_hash: [1; 32], start: 5, end: 10 });
    assert_eq!(at.file_id, 0);
    assert_eq!((at.start.line, at.start.column, at.start.byte), (2, 1, 5));
    assert_eq!((at.end.line, at.end.column, at.end.byte), (4, 0, 10));
}

#[test]
fn location_past_the_end_stays_on_the_last_line() {
    let m = files();
    let at = m.location(Loc { file_hash: [1; 32], start: 0, end: 100 });
    assert_eq!((at.start.line, at.start.column), (1, 0));
    assert_eq!((at.end.line, at.end.column), (4, 3));
}

#[test]
fn columns_count_characters_not_bytes() {
    let m = files();
    let at = m.location(Loc { file_hash: [2; 32], start: 3, end: 5 });
    assert_eq!((at.start.line, at.start.column), (1, 2));
    assert_eq!((at.end.line, at.end.column), (2, 1));
}
