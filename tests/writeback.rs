use stop_sync::models::Stop;
use stop_sync::writeback::{BatchWriter, IdAllocator};

fn stop(id: &str) -> Stop {
    Stop {
        id: id.to_string(),
        position: String::new(),
        latitude: String::new(),
        longitude: String::new(),
        stop_id: String::new(),
    }
}

#[test]
fn allocator_counts_across_pages() {
    let mut a = IdAllocator::new("ST000000".to_string());
    let first = a.assign_page(&vec![stop("x"), stop("y")]);
    let second = a.assign_page(&vec![stop("z")]);
    assert_eq!(first.data.len(), 2);
    assert_eq!(first.data[0].data.stop_id, "ST000001");
    assert_eq!(first.data[0].wheres.id, "x");
    assert_eq!(first.data[1].data.stop_id, "ST000002");
    assert_eq!(first.data[1].wheres.id, "y");
    assert_eq!(second.data[0].data.stop_id, "ST000003");
    assert_eq!(second.data[0].wheres.id, "z");
}

#[test]
fn empty_page_assigns_nothing() {
    let mut a = IdAllocator::new("ST0".to_string());
    assert!(a.assign_page(&Vec::new()).data.is_empty());
    assert_eq!(a.assign_page(&vec![stop("q")]).data[0].data.stop_id, "ST1");
}

fn drive(len: usize, chunk: usize, fail: &[usize]) -> (Vec<(usize, usize)>, BatchWriter) {
    let mut w = BatchWriter::new(len, chunk);
    let mut calls = Vec::new();
    while let Some(r) = w.next_range() {
        let k = calls.len();
        calls.push(r);
        w.record(!fail.contains(&k));
    }
    (calls, w)
}

#[test]
fn chunks_cover_batch() {
    let (calls, w) = drive(600, 250, &[]);
    assert_eq!(calls, vec![(0, 250), (250, 500), (500, 600)]);
    assert!(w.all_succeeded());
}

#[test]
fn exact_multiple_has_no_empty_chunk() {
    let (calls, _) = drive(500, 250, &[]);
    assert_eq!(calls, vec![(0, 250), (250, 500)]);
}

#[test]
fn empty_batch_issues_no_call() {
    let (calls, w) = drive(0, 250, &[]);
    assert!(calls.is_empty());
    assert!(w.all_succeeded());
}

#[test]
fn failed_chunk_does_not_stop_next() {
    let (calls, w) = drive(7, 3, &[0]);
    assert_eq!(calls, vec![(0, 3), (3, 6), (6, 7)]);
    assert_eq!(w.failed(), &vec![0]);
    assert!(!w.all_succeeded());
}
