use micromouse_logic::buffer::CAPACITY;
use micromouse_logic::math::Vector;
use micromouse_logic::path::{Path, PathConfig, Segment};
use micromouse_logic::steering::FeedbackState;

fn v(x: i64, y: i64) -> Vector {
    Vector { x, y }
}

/// A line that can be told from every other by its number.
fn numbered(n: i64) -> Segment {
    Segment::line(v(n, 0), v(n, 1_000))
}

fn empty_path() -> Path {
    Path::new(&PathConfig::default(), 0)
}

#[test]
fn new_path_is_empty() {
    let path = Path::new(&PathConfig::default(), 77);
    assert_eq!(path.len(), 0);
    assert_eq!(path.active(), None);
    assert_eq!(path.time, 77);
    assert_eq!(path.feedback, FeedbackState { integral: 0, previous_error: 0 });
}

#[test]
fn capacity_is_sixteen() {
    assert_eq!(CAPACITY, 16);
    let mut path = empty_path();
    assert_eq!(path.add_segments(&[]), Ok(16));
}

#[test]
fn adding_reports_the_free_places() {
    let mut path = empty_path();
    assert_eq!(path.add_segments(&[numbered(1)]), Ok(15));
    assert_eq!(path.add_segments(&[numbered(2), numbered(3)]), Ok(13));
    assert_eq!(path.add_segments(&[]), Ok(13));
    assert_eq!(path.len(), 3);
}

#[test]
fn last_in_first_out() {
    let (a, b, c) = (numbered(1), numbered(2), numbered(3));
    let mut path = empty_path();
    assert_eq!(path.add_segments(&[a, b, c]), Ok(13));
    assert_eq!(path.active(), Some(c));
    assert_eq!(path.len(), 3);
    assert_eq!(path.pop_active(), Some(c));
    assert_eq!(path.active(), Some(b));
    assert_eq!(path.pop_active(), Some(b));
    assert_eq!(path.pop_active(), Some(a));
    assert_eq!(path.pop_active(), None);
    assert_eq!(path.active(), None);
    assert_eq!(path.len(), 0);
}

#[test]
fn active_leaves_the_segment_in_place() {
    let mut path = empty_path();
    path.add_segments(&[numbered(1), numbered(2)]).unwrap();
    assert_eq!(path.active(), Some(numbered(2)));
    assert_eq!(path.active(), Some(numbered(2)));
    assert_eq!(path.len(), 2);
}

#[test]
fn a_batch_that_fills_the_buffer_fits() {
    let batch: Vec<Segment> = (0..16).map(numbered).collect();
    let mut path = empty_path();
    assert_eq!(path.add_segments(&batch), Ok(0));
    assert_eq!(path.len(), 16);
    assert_eq!(path.active(), Some(numbered(15)));
}

#[test]
fn the_first_segment_that_does_not_fit_is_reported() {
    let batch: Vec<Segment> = (0..20).map(numbered).collect();
    let mut path = empty_path();
    assert_eq!(path.add_segments(&[numbered(100), numbered(101)]), Ok(14));
    assert_eq!(path.add_segments(&batch), Err(14));
    // the segments before the one that failed stay added, in order
    assert_eq!(path.len(), 16);
    for n in (0..14).rev() {
        assert_eq!(path.pop_active(), Some(numbered(n)));
    }
    assert_eq!(path.pop_active(), Some(numbered(101)));
    assert_eq!(path.pop_active(), Some(numbered(100)));
    assert_eq!(path.pop_active(), None);
}

#[test]
fn a_full_buffer_rejects_without_changing() {
    let batch: Vec<Segment> = (0..16).map(numbered).collect();
    let mut path = empty_path();
    path.add_segments(&batch).unwrap();
    assert_eq!(path.add_segments(&[numbered(99)]), Err(0));
    assert_eq!(path.add_segments(&[numbered(98), numbered(97)]), Err(0));
    assert_eq!(path.add_segments(&[]), Ok(0));
    assert_eq!(path.len(), 16);
    for n in (0..16).rev() {
        assert_eq!(path.pop_active(), Some(numbered(n)));
    }
    assert_eq!(path.len(), 0);
}

#[test]
fn length_never_passes_the_capacity() {
    let mut path = empty_path();
    for round in 0..10 {
        let batch: Vec<Segment> = (0..round).map(numbered).collect();
        let before = path.len();
        let result = path.add_segments(&batch);
        assert!(path.len() <= CAPACITY);
        match result {
            Ok(free) => {
                assert_eq!(path.len(), before + batch.len());
                assert_eq!(free, CAPACITY - path.len());
            }
            Err(index) => {
                assert_eq!(index, CAPACITY - before);
                assert_eq!(path.len(), CAPACITY);
            }
        }
    }
    assert_eq!(path.len(), CAPACITY);
}

#[test]
fn room_comes_back_once_segments_leave() {
    let batch: Vec<Segment> = (0..16).map(numbered).collect();
    let mut path = empty_path();
    path.add_segments(&batch).unwrap();
    assert_eq!(path.add_segments(&[numbered(50)]), Err(0));
    assert_eq!(path.pop_active(), Some(numbered(15)));
    assert_eq!(path.add_segments(&[numbered(50)]), Ok(0));
    assert_eq!(path.active(), Some(numbered(50)));
}

#[test]
fn a_copy_holds_the_same_segments_and_is_its_own() {
    let mut path = empty_path();
    path.add_segments(&[numbered(1), numbered(2)]).unwrap();
    let mut copy = path.clone();
    assert_eq!(copy.len(), 2);
    assert_eq!(copy.pop_active(), Some(numbered(2)));
    assert_eq!(copy.pop_active(), Some(numbered(1)));
    assert_eq!(copy.pop_active(), None);
    assert_eq!(path.len(), 2);
    assert_eq!(path.active(), Some(numbered(2)));
}

#[test]
fn the_segments_are_listed_oldest_first() {
    let mut path = empty_path();
    assert_eq!(path.segment_buffer.segments(), vec![]);
    path.add_segments(&[numbered(1), numbered(2), numbered(3)]).unwrap();
    assert_eq!(path.segment_buffer.segments(), vec![numbered(1), numbered(2), numbered(3)]);
    // listing leaves the buffer as it was
    assert_eq!(path.len(), 3);
    assert_eq!(path.active(), Some(numbered(3)));
    let batch: Vec<Segment> = (0..16).map(numbered).collect();
    let mut full = empty_path();
    full.add_segments(&batch).unwrap();
    assert_eq!(full.segment_buffer.segments(), batch);
}
