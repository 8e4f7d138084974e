use eva_core::engine::{CaptureOutcome, CycleOutcome, Engine, InitError, hydrated_search};
use eva_core::index::{IndexError, SemanticIndex};
use eva_core::store::{LoadResult, Storage, StorageError};

const KEY: &[u8] = b"0123456789abcdef";
const OTHER_KEY: &[u8] = b"fedcba9876543210";

#[test]
fn test_metadata_round_trip() {
    let mut storage = Storage::new(KEY).unwrap();
    let id = storage.allocate_and_save_frame(b"frame bytes");
    storage.save_metadata(id, b"hello world").unwrap();
    match storage.load_metadata(id) {
        LoadResult::Record(text) => assert_eq!(text, b"hello world".to_vec()),
        other => panic!("expected the record back, got {:?}", other),
    }
}

#[test]
fn test_wrong_key_reads_as_corrupt() {
    let mut storage = Storage::new(KEY).unwrap();
    let id = storage.allocate_and_save_frame(b"frame bytes");
    storage.save_metadata(id, b"secret note").unwrap();
    storage.set_encryption_key(OTHER_KEY).unwrap();
    assert_eq!(storage.load_metadata(id), LoadResult::Corrupt);
}

#[test]
fn test_missing_metadata_is_not_found() {
    let storage = Storage::new(KEY).unwrap();
    assert_eq!(storage.load_metadata(42), LoadResult::NotFound);
}

#[test]
fn test_save_metadata_unknown_id() {
    let mut storage = Storage::new(KEY).unwrap();
    assert_eq!(storage.save_metadata(7, b"text").unwrap_err(), StorageError::UnknownId);
}

#[test]
fn test_weak_key_is_rejected() {
    assert_eq!(Storage::new(b"short").unwrap_err(), StorageError::WeakKey);
    let mut storage = Storage::new(KEY).unwrap();
    assert_eq!(storage.set_encryption_key(b"short").unwrap_err(), StorageError::WeakKey);
}

#[test]
fn test_filtered_cycle_changes_nothing() {
    let mut engine = Engine::new(KEY, 3).unwrap();
    let count_before = engine.count();
    let next_before = engine.storage().next_id();

    let outcome = engine.run_cycle(CaptureOutcome::Filtered, None, None);

    assert_eq!(outcome, CycleOutcome::SkippedFiltered);
    assert_eq!(engine.count(), count_before);
    assert_eq!(engine.storage().next_id(), next_before);
}

#[test]
fn test_failed_capture_changes_nothing() {
    let mut engine = Engine::new(KEY, 3).unwrap();
    let outcome = engine.run_cycle(CaptureOutcome::Failed, None, None);
    assert_eq!(outcome, CycleOutcome::SkippedCapture);
    assert_eq!(engine.count(), 0);
    assert_eq!(engine.storage().next_id(), 1);
}

#[test]
fn test_failed_extraction_changes_nothing() {
    let mut engine = Engine::new(KEY, 3).unwrap();
    let outcome = engine.run_cycle(CaptureOutcome::Frame(b"frame".to_vec()), None, None);
    assert_eq!(outcome, CycleOutcome::SkippedExtraction);
    let outcome = engine.run_cycle(
        CaptureOutcome::Frame(b"frame".to_vec()),
        Some(b"text".to_vec()),
        Some(vec![1, 2]), // wrong dimension
    );
    assert_eq!(outcome, CycleOutcome::SkippedExtraction);
    assert_eq!(engine.count(), 0);
    assert_eq!(engine.storage().next_id(), 1);
}

#[test]
fn test_two_cycles_rank_by_similarity() {
    let mut engine = Engine::new(KEY, 3).unwrap();

    let v1 = vec![1000, 0, 0];
    let v2 = vec![0, 1000, 0];
    let o1 = engine.run_cycle(
        CaptureOutcome::Frame(b"frame one".to_vec()),
        Some(b"first moment".to_vec()),
        Some(v1),
    );
    let o2 = engine.run_cycle(
        CaptureOutcome::Frame(b"frame two".to_vec()),
        Some(b"second moment".to_vec()),
        Some(v2),
    );
    assert_eq!(o1, CycleOutcome::Committed(1));
    assert_eq!(o2, CycleOutcome::Committed(2));

    let q = vec![0, 1000, 0];
    let results = engine.search(&q, 5);
    assert_eq!(results.len(), 2);
    assert_eq!(results[0].id, 2);
    assert_eq!(results[1].id, 1);
    assert!(results[0].score > results[1].score);
    assert_eq!(results[0].text, b"second moment".to_vec());
    assert_eq!(results[1].text, b"first moment".to_vec());
}

#[test]
fn test_search_omits_desynced_entry() {
    // An index entry without backing metadata: the hit is dropped, not an
    // error.
    let mut index = SemanticIndex::new(2).unwrap();
    index.add(7, vec![1000, 0], b"orphan".to_vec()).unwrap();
    let storage = Storage::new(KEY).unwrap();

    let results = hydrated_search(&index, &storage, &[1000, 0], 5);
    assert!(results.iter().all(|r| r.id != 7));
    assert!(results.is_empty());
}

#[test]
fn test_repeated_add_overwrites() {
    let mut index = SemanticIndex::new(2).unwrap();
    index.add(1, vec![10, 20], b"one".to_vec()).unwrap();
    index.add(2, vec![30, 40], b"two".to_vec()).unwrap();
    index.add(1, vec![50, 60], b"one again".to_vec()).unwrap();
    assert_eq!(index.count(), 2);
}

#[test]
fn test_search_breaks_ties_by_ascending_id() {
    let mut index = SemanticIndex::new(2).unwrap();
    index.add(9, vec![100, 0], b"nine".to_vec()).unwrap();
    index.add(3, vec![100, 0], b"three".to_vec()).unwrap();
    index.add(5, vec![100, 0], b"five".to_vec()).unwrap();
    let hits = index.search(&[100, 0], 10);
    let ids: Vec<u64> = hits.iter().map(|h| h.0).collect();
    assert_eq!(ids, vec![3, 5, 9]);
}

#[test]
fn test_search_returns_at_most_k() {
    let mut index = SemanticIndex::new(1).unwrap();
    for id in 1..=6u64 {
        index.add(id, vec![id as i64], format!("{}", id).into_bytes()).unwrap();
    }
    let hits = index.search(&[1], 4);
    assert_eq!(hits.len(), 4);
    // Strictly descending scores: highest component first.
    assert_eq!(hits[0].0, 6);
    assert_eq!(hits[3].0, 3);
}

#[test]
fn test_search_empty_index_is_empty() {
    let index = SemanticIndex::new(4).unwrap();
    assert!(index.search(&[1, 2, 3, 4], 3).is_empty());
}

#[test]
fn test_index_rejects_bad_vectors() {
    assert_eq!(SemanticIndex::new(0).unwrap_err(), IndexError::BadDimension);
    let mut index = SemanticIndex::new(2).unwrap();
    assert_eq!(index.add(1, vec![1, 2, 3], b"t".to_vec()).unwrap_err(), IndexError::BadVector);
    assert_eq!(
        index.add(1, vec![1, 2000000], b"t".to_vec()).unwrap_err(),
        IndexError::BadVector
    );
}

#[test]
fn test_index_always_backed_by_storage() {
    // Interleave committed, filtered and failed cycles with searches: every
    // identifier the index reports must load from storage at every point.
    let mut engine = Engine::new(KEY, 2).unwrap();
    let outcomes = [
        CaptureOutcome::Frame(b"f1".to_vec()),
        CaptureOutcome::Filtered,
        CaptureOutcome::Frame(b"f2".to_vec()),
        CaptureOutcome::Failed,
        CaptureOutcome::Frame(b"f3".to_vec()),
    ];
    for (n, outcome) in outcomes.into_iter().enumerate() {
        let text = Some(format!("moment {}", n).into_bytes());
        let vector = Some(vec![n as i64 * 100, 1000 - n as i64 * 100]);
        engine.run_cycle(outcome, text, vector);

        let hits = engine.search(&[500, 500], 10);
        for hit in &hits {
            match engine.storage().load_metadata(hit.id) {
                LoadResult::Record(_) => {}
                other => panic!("indexed id {} did not load: {:?}", hit.id, other),
            }
        }
    }
    assert_eq!(engine.count(), 3);
}

#[test]
fn test_engine_rejects_bad_init() {
    assert_eq!(Engine::new(b"short", 3).unwrap_err(), InitError::WeakKey);
    assert_eq!(Engine::new(KEY, 0).unwrap_err(), InitError::BadDimension);
}
