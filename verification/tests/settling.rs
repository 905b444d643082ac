//! The decision that `FilesReader::settle` takes on each answer of a source.

use files_reader::reader::FilesReader;
use files_reader::source::Polled;

fn reader_over(count: usize) -> FilesReader<usize> {
    FilesReader::new((0..count).collect())
}

#[test]
fn a_read_that_used_no_room_moves_the_cursor() {
    let mut reader = reader_over(3);
    let report: Option<Polled<String>> = reader.settle(Polled::Ready, 10, 10);
    assert_eq!(report, None);
    assert_eq!(reader.cursor(), 1);
    assert_eq!(reader.len(), 3);
}

#[test]
fn a_read_that_used_room_is_reported() {
    let mut reader = reader_over(3);
    let report: Option<Polled<String>> = reader.settle(Polled::Ready, 10, 7);
    assert_eq!(report, Some(Polled::Ready));
    assert_eq!(reader.cursor(), 0);
}

#[test]
fn a_single_byte_counts_as_progress() {
    let mut reader = reader_over(2);
    let report: Option<Polled<String>> = reader.settle(Polled::Ready, 1, 0);
    assert_eq!(report, Some(Polled::Ready));
    assert_eq!(reader.cursor(), 0);
}

#[test]
fn any_change_of_room_counts_as_progress() {
    // A source may also shrink what the buffer holds; the reader only asks
    // whether the room is what it was.
    let mut reader = reader_over(2);
    let report: Option<Polled<String>> = reader.settle(Polled::Ready, 4, 6);
    assert_eq!(report, Some(Polled::Ready));
    assert_eq!(reader.cursor(), 0);
}

#[test]
fn pending_is_passed_on_and_keeps_the_cursor() {
    let mut reader = reader_over(3);
    let report: Option<Polled<String>> = reader.settle(Polled::Pending, 10, 10);
    assert_eq!(report, Some(Polled::Pending));
    assert_eq!(reader.cursor(), 0);
    let report: Option<Polled<String>> = reader.settle(Polled::Pending, 10, 4);
    assert_eq!(report, Some(Polled::Pending));
    assert_eq!(reader.cursor(), 0);
}

#[test]
fn failure_is_passed_on_and_keeps_the_cursor() {
    let mut reader = reader_over(3);
    assert_eq!(reader.settle::<String>(Polled::Ready, 8, 8), None);
    let report = reader.settle(Polled::Failed(String::from("broken pipe")), 8, 8);
    assert_eq!(report, Some(Polled::Failed(String::from("broken pipe"))));
    assert_eq!(reader.cursor(), 1);
    let report = reader.settle(Polled::Failed(42u32), 8, 3);
    assert_eq!(report, Some(Polled::Failed(42u32)));
    assert_eq!(reader.cursor(), 1);
}

#[test]
fn the_cursor_stops_behind_the_last_source() {
    let mut reader = reader_over(2);
    assert_eq!(reader.settle::<String>(Polled::Ready, 5, 5), None);
    assert_eq!(reader.cursor(), 1);
    assert_eq!(reader.settle::<String>(Polled::Ready, 5, 5), None);
    assert_eq!(reader.cursor(), 2);
    assert_eq!(reader.settle::<String>(Polled::Ready, 5, 5), None);
    assert_eq!(reader.cursor(), 2);
    assert_eq!(reader.settle::<String>(Polled::Ready, 5, 2), Some(Polled::Ready));
    assert_eq!(reader.cursor(), 2);
}

#[test]
fn a_reader_without_sources_has_nowhere_to_move() {
    let mut reader = reader_over(0);
    assert_eq!(reader.cursor(), 0);
    assert_eq!(reader.settle::<String>(Polled::Ready, 0, 0), None);
    assert_eq!(reader.cursor(), 0);
    assert_eq!(reader.len(), 0);
}

#[test]
fn cursor_counts_the_exhausted_sources() {
    let mut reader = reader_over(5);
    let answers: [(usize, usize); 7] = [(9, 9), (9, 5), (5, 5), (5, 5), (5, 1), (1, 0), (0, 0)];
    let expected: [usize; 7] = [1, 1, 2, 3, 3, 3, 4];
    let mut at: usize = 0;
    while at < answers.len() {
        let (before, after) = answers[at];
        let _ = reader.settle::<String>(Polled::Ready, before, after);
        assert_eq!(reader.cursor(), expected[at]);
        at += 1;
    }
}
