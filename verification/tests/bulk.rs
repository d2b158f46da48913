use tairvector::arg::Arg;
use tairvector::bulk::{plan, upserts, Chunk, Upload, CHUNK_SIZE};
use tairvector::tally::{tally, Progress};
use tairvector::vector::NdArrayVector;

fn text_of(row: &[f32]) -> Vec<u8> {
    NdArrayVector::new(row).encode(|value: &f32| value.to_string())
}

#[test]
fn default_chunk_size() {
    assert_eq!(CHUNK_SIZE, 32);
}

#[test]
fn plan_of_a_hundred_in_chunks_of_thirty_two() {
    assert_eq!(
        plan(100, 32),
        vec![
            Chunk { start: 0, len: 32 },
            Chunk { start: 32, len: 32 },
            Chunk { start: 64, len: 32 },
            Chunk { start: 96, len: 4 },
        ]
    );
}

#[test]
fn plan_of_an_exact_multiple_has_no_short_chunk() {
    assert_eq!(plan(64, 32), vec![Chunk { start: 0, len: 32 }, Chunk { start: 32, len: 32 }]);
}

#[test]
fn plan_of_less_than_a_chunk_is_one_short_chunk() {
    assert_eq!(plan(5, 32), vec![Chunk { start: 0, len: 5 }]);
}

#[test]
fn plan_of_nothing_is_empty() {
    assert!(plan(0, 32).is_empty());
}

#[test]
fn plan_in_chunks_of_one() {
    assert_eq!(
        plan(3, 1),
        vec![Chunk { start: 0, len: 1 }, Chunk { start: 1, len: 1 }, Chunk { start: 2, len: 1 }]
    );
}

#[test]
fn plan_of_the_largest_batch_ends_at_the_end() {
    let chunks = plan(usize::MAX, usize::MAX - 1);
    assert_eq!(
        chunks,
        vec![Chunk { start: 0, len: usize::MAX - 1 }, Chunk { start: usize::MAX - 1, len: 1 }]
    );
}

#[test]
fn keys_are_the_positions_in_the_batch() {
    for (total, size) in [(100usize, 32usize), (96, 32), (1, 32), (33, 32), (10, 3), (7, 7)] {
        let mut seen: Vec<usize> = Vec::new();
        for chunk in plan(total, size) {
            assert!(chunk.len >= 1 && chunk.len <= size);
            for offset in 0..chunk.len {
                seen.push(chunk.key(offset));
            }
        }
        let expected: Vec<usize> = (0..total).collect();
        assert_eq!(seen, expected);
    }
}

#[test]
fn key_is_start_plus_offset() {
    let chunk = Chunk { start: 64, len: 32 };
    assert_eq!(chunk.key(0), 64);
    assert_eq!(chunk.key(31), 95);
}

#[test]
fn upserts_store_each_vector_under_its_position() {
    let rows: Vec<[f32; 2]> = (0..100).map(|i| [i as f32, 0.5]).collect();
    let mut keys: Vec<String> = Vec::new();
    for chunk in plan(rows.len(), CHUNK_SIZE) {
        let texts: Vec<Vec<u8>> =
            rows[chunk.start..chunk.start + chunk.len].iter().map(|row| text_of(row)).collect();
        let cmds = upserts(Arg::Text("test-bulk-load"), &chunk, &texts);
        assert_eq!(cmds.len(), chunk.len);
        for (offset, cmd) in cmds.iter().enumerate() {
            let position = chunk.start + offset;
            let expected = redis::pack_command(&[
                b"TVS.HSET".to_vec(),
                b"test-bulk-load".to_vec(),
                position.to_string().into_bytes(),
                b"VECTOR".to_vec(),
                format!("[{},0.5]", position).into_bytes(),
            ]);
            assert_eq!(cmd.get_packed_command(), expected);
            keys.push(position.to_string());
        }
    }
    let expected: Vec<String> = (0..100).map(|i| i.to_string()).collect();
    assert_eq!(keys, expected);
}

#[test]
fn upserts_of_an_empty_chunk_is_empty() {
    let cmds = upserts(Arg::Text("t"), &Chunk { start: 4, len: 0 }, &[]);
    assert!(cmds.is_empty());
}

#[test]
fn tally_of_ones_is_the_number_of_vectors() {
    let outcomes = vec![Some(1usize); 100];
    assert_eq!(tally(&outcomes), Some(100));
}

#[test]
fn tally_adds_the_counts() {
    assert_eq!(tally(&[Some(32), Some(32), Some(32), Some(4)]), Some(100));
    assert_eq!(tally(&[Some(0), Some(2), Some(0)]), Some(2));
}

#[test]
fn tally_of_nothing_is_zero() {
    assert_eq!(tally(&[]), Some(0));
}

#[test]
fn tally_with_a_failure_has_no_partial_result() {
    assert_eq!(tally(&[Some(1), None, Some(1)]), None);
    assert_eq!(tally(&[None]), None);
    assert_eq!(tally(&[Some(5), Some(6), None]), None);
}

#[test]
fn tally_does_not_depend_on_the_order() {
    assert_eq!(tally(&[Some(4), Some(32), Some(32), Some(32)]), Some(100));
    assert_eq!(tally(&[Some(32), Some(4), Some(32), Some(32)]), Some(100));
}

#[test]
fn tally_beyond_the_largest_number_is_nothing() {
    assert_eq!(tally(&[Some(usize::MAX), Some(1)]), None);
    assert_eq!(tally(&[Some(usize::MAX), Some(0)]), Some(usize::MAX));
    assert_eq!(tally(&[Some(usize::MAX), Some(1), None]), None);
}

#[test]
fn workers_sums_add_up_to_the_batch_size() {
    let chunks = plan(100, CHUNK_SIZE);
    let per_worker: Vec<Option<usize>> =
        chunks.iter().map(|chunk| tally(&vec![Some(1usize); chunk.len])).collect();
    assert_eq!(tally(&per_worker), Some(100));
}

#[test]
fn progress_adds_counts_and_stops_at_a_failure() {
    let progress = Progress::start();
    assert_eq!(progress, Progress::Counted(0));
    let progress = progress.advance(Some(1)).advance(Some(2));
    assert_eq!(progress, Progress::Counted(3));
    assert_eq!(progress.total(), Some(3));
    let progress = progress.advance(None);
    assert_eq!(progress, Progress::Failed);
    assert_eq!(progress.advance(Some(1)), Progress::Failed);
    assert_eq!(progress.total(), None);
}

#[test]
fn progress_beyond_the_largest_number_has_failed() {
    let progress = Progress::Counted(usize::MAX - 1).advance(Some(1));
    assert_eq!(progress, Progress::Counted(usize::MAX));
    assert_eq!(progress.advance(Some(1)), Progress::Failed);
    assert_eq!(progress.advance(Some(0)), Progress::Counted(usize::MAX));
}

#[test]
fn upload_sends_every_command_of_the_chunk_in_order() {
    let chunk = Chunk { start: 32, len: 3 };
    let texts = vec![b"[1]".to_vec(), b"[2]".to_vec(), b"[3]".to_vec()];
    let mut upload = Upload::new(Arg::Text("t"), &chunk, &texts);
    let mut sent: Vec<Vec<u8>> = Vec::new();
    while let Some(cmd) = upload.next() {
        sent.push(cmd.get_packed_command());
        upload.record(Some(1));
    }
    let expected: Vec<Vec<u8>> = upserts(Arg::Text("t"), &chunk, &texts)
        .iter()
        .map(|cmd| cmd.get_packed_command())
        .collect();
    assert_eq!(sent, expected);
    assert_eq!(sent.len(), 3);
    assert_eq!(upload.progress(), Progress::Counted(3));
    assert_eq!(upload.progress().total(), Some(3));
}

#[test]
fn upload_stops_at_the_first_failure() {
    let chunk = Chunk { start: 0, len: 4 };
    let texts = vec![b"[1]".to_vec(); 4];
    let mut upload = Upload::new(Arg::Text("t"), &chunk, &texts);
    assert!(upload.next().is_some());
    upload.record(Some(1));
    assert!(upload.next().is_some());
    upload.record(None);
    assert!(upload.next().is_none());
    assert!(upload.next().is_none());
    assert_eq!(upload.progress(), Progress::Failed);
    assert_eq!(upload.progress().total(), None);
}

#[test]
fn upload_of_an_empty_chunk_counts_nothing() {
    let mut upload = Upload::new(Arg::Text("t"), &Chunk { start: 9, len: 0 }, &[]);
    assert!(upload.next().is_none());
    assert_eq!(upload.progress().total(), Some(0));
}
