use anna_sync::cdc::ChunkBoundary;
use anna_sync::files::FileMetadata;
use anna_sync::hashing::hash_hex;
use anna_sync::serve::{self, ChunkSource, Download, ServeStage};
use anna_sync::status::{totals, ServerMetrics};
use anna_sync::storage::{next_move_step, next_save_step, save_result, FileStorage, MoveStep, Outcome, SaveStep};
use anna_sync::tracker::ChunkTracker;
use anna_sync::upload::{self, Settled, UploadStage};
use futures_util::FutureExt;
use tokio::io::AsyncReadExt;

fn metadata(chunk_count: u32, compressed: bool) -> FileMetadata {
    FileMetadata {
        hash: "h".to_string(),
        name: "n".to_string(),
        size: 10,
        mime_type: "text/plain".to_string(),
        uploaded_at: 3,
        chunk_count,
        compressed,
    }
}

fn brotli(data: &[u8]) -> Vec<u8> {
    let mut encoder = async_compression::tokio::bufread::BrotliEncoder::new(data);
    let mut out = Vec::new();
    encoder.read_to_end(&mut out).now_or_never().unwrap().unwrap();
    out
}

#[test]
fn only_the_flag_true_lets_an_upload_in() {
    assert!(upload::begin_upload(Some("true")).is_ok());
    for flag in [None, Some(""), Some("TRUE"), Some("1"), Some("true ")] {
        let answer = upload::begin_upload(flag).err().unwrap();
        assert_eq!(
            answer.error,
            "Direct uploads are disabled. Use ?backup=true to explicitly back up a file."
        );
    }
}

#[test]
fn the_file_field_is_found_by_its_name() {
    let form = upload::begin_upload(Some("true")).ok().unwrap();
    assert!(form.is_file_field(Some("file")));
    assert!(!form.is_file_field(Some("File")));
    assert!(!form.is_file_field(None));
    assert_eq!(form.without_file().error, "No file field in upload");
}

#[test]
fn a_file_without_name_and_type_gets_defaults() {
    let form = upload::begin_upload(Some("true")).ok().unwrap();
    let file = form.file(None, None).absorb(b"ab").absorb(b"").absorb(b"c");
    assert_eq!(file.size(), 3);
    let received = file.finish();
    assert_eq!(received.name, "unnamed");
    assert_eq!(received.mime_type, "application/octet-stream");
    assert_eq!(received.size, 3);
    assert_eq!(received.hash, hash_hex(b"abc"));
}

#[test]
fn known_content_is_not_stored_again() {
    let mut tracker = ChunkTracker::new();
    let form = upload::begin_upload(Some("true")).ok().unwrap();
    let received = form.file(Some("a".to_string()), Some("b/c".to_string())).absorb(b"xyz").finish();
    let hash = received.hash.clone();
    tracker.add_chunk(&hash, 0);
    tracker.add_chunk(&hash, 1);
    match received.settle(true, &tracker) {
        Settled::Exists { answer, discard_temp } => {
            assert!(discard_temp);
            assert_eq!(answer.status, "exists");
            assert_eq!(answer.hash, hash);
            assert_eq!(answer.size, 3);
            assert_eq!(answer.chunk_count, 2);
        }
        Settled::New(_) => panic!("the content is known"),
    }
}

#[test]
fn new_content_is_recorded_and_its_chunks_become_known() {
    let mut tracker = ChunkTracker::new();
    let form = upload::begin_upload(Some("true")).ok().unwrap();
    let received = form.file(Some("a".to_string()), Some("b/c".to_string())).absorb(b"xyz").finish();
    let hash = received.hash.clone();
    let file = match received.settle(false, &tracker) {
        Settled::New(file) => file,
        Settled::Exists { .. } => panic!("the content is new"),
    };
    let boundary = ChunkBoundary { chunk_id: 0, offset: 0, length: 3, hash: hash_hex(b"xyz") };
    let chunked = file.chunked(Ok(vec![boundary])).unwrap();
    assert_eq!(chunked.hash(), hash);
    let stored = chunked.stored(Ok(())).unwrap();
    let record = stored.metadata(77);
    assert_eq!((record.name.as_str(), record.mime_type.as_str()), ("a", "b/c"));
    assert_eq!((record.size, record.uploaded_at, record.chunk_count, record.compressed), (3, 77, 1, false));
    let recorded = stored.recorded(Ok(())).unwrap();
    assert_eq!(recorded.chunk_statements().len(), 1);
    let answer = recorded.chunks_recorded(Ok(())).unwrap().complete(&mut tracker);
    assert_eq!((answer.status.as_str(), answer.size, answer.chunk_count), ("success", 3, 1));
    assert_eq!(answer.hash, hash);
    assert_eq!(tracker.get_available_chunks(&hash), vec![0]);
    assert!(tracker.get_peers_for_chunk(&hash, 0).is_empty());
}

fn new_file() -> upload::NewFile {
    let form = upload::begin_upload(Some("true")).ok().unwrap();
    match form.file(None, None).absorb(b"xyz").finish().settle(false, &ChunkTracker::new()) {
        Settled::New(file) => file,
        Settled::Exists { .. } => panic!("the content is new"),
    }
}

#[test]
fn an_upload_stops_where_its_work_fails() {
    let why = || Err("e".to_string());
    let failure = new_file().chunked(Err("e".to_string())).err().unwrap();
    assert_eq!((failure.answer.error.as_str(), failure.discard_temp), ("CDC failed: e", true));
    let failure = new_file().chunked(Ok(vec![])).unwrap().stored(why()).err().unwrap();
    assert_eq!((failure.answer.error.as_str(), failure.discard_temp), ("Failed to store file: e", true));
    let stored = || new_file().chunked(Ok(vec![])).unwrap().stored(Ok(())).unwrap();
    let failure = stored().recorded(why()).err().unwrap();
    assert_eq!((failure.answer.error.as_str(), failure.discard_temp), ("Failed to save metadata: e", false));
    let failure = stored().recorded(Ok(())).unwrap().chunks_recorded(why()).err().unwrap();
    assert_eq!(
        (failure.answer.error.as_str(), failure.discard_temp),
        ("Failed to save chunk boundaries: e", false)
    );
}

#[test]
fn a_failed_upload_says_where_and_leaves_no_temporary_file() {
    let cases = [
        (UploadStage::ReadForm, "Multipart error: e", false),
        (UploadStage::CreateTemp, "Failed to create temp file: e", false),
        (UploadStage::ReadPiece, "Failed to read upload chunk: e", true),
        (UploadStage::WriteTemp, "Failed to write temp file: e", true),
        (UploadStage::SyncTemp, "Failed to sync temp file: e", true),
        (UploadStage::Chunk, "CDC failed: e", true),
        (UploadStage::Store, "Failed to store file: e", true),
        (UploadStage::SaveMetadata, "Failed to save metadata: e", false),
        (UploadStage::SaveChunks, "Failed to save chunk boundaries: e", false),
    ];
    for (stage, text, discard) in cases {
        let failure = upload::upload_failed(stage, "e");
        assert_eq!(failure.answer.error, text);
        assert_eq!(failure.discard_temp, discard);
    }
}

#[test]
fn temporary_names_are_fresh() {
    assert_eq!(upload::temp_name("7"), "anna-sync-upload-7.tmp");
    let name = upload::new_temp_name();
    assert_eq!(name.len(), "anna-sync-upload-".len() + 36 + ".tmp".len());
    assert_ne!(name, upload::new_temp_name());
    assert_eq!(FileStorage::temp_name("ab", "7"), "ab.tmp.7");
    assert_eq!(FileStorage::new_temp_name("ab").len(), 7 + 36);
}

#[test]
fn requests_for_files_are_answered() {
    assert_eq!(serve::list_files(None).err().unwrap().error, "Failed to list files");
    assert_eq!(serve::list_files(Some(vec![metadata(1, false)])).unwrap().len(), 1);
    assert_eq!(serve::list_chunks(Err("gone".to_string())).err().unwrap().error, "Chunks not found: gone");
    assert!(serve::list_chunks(Ok(Vec::new())).unwrap().is_empty());
    assert_eq!(serve::plan_download(None).err().unwrap().error, "File not found");
    match serve::plan_download(Some(metadata(1, false))).unwrap() {
        Download::Stream { mime_type } => assert_eq!(mime_type, "text/plain"),
        other => panic!("expected a stream, got {other:?}"),
    }
    match serve::plan_download(Some(metadata(1, true))).unwrap() {
        Download::Decompress { mime_type } => assert_eq!(mime_type, "text/plain"),
        other => panic!("expected a compressed file, got {other:?}"),
    }
}

#[test]
fn a_chunk_is_located() {
    let plain = metadata(3, false);
    let packed = metadata(3, true);
    assert!(matches!(serve::get_chunk(Some(&plain), 2).unwrap(), ChunkSource::Boundary(_)));
    assert!(matches!(serve::get_chunk(Some(&packed), 0).unwrap(), ChunkSource::Legacy(_)));
    assert_eq!(serve::get_chunk(None, 0).err().unwrap().error, "File not found");
    assert_eq!(
        serve::get_chunk(Some(&packed), 4294967295).err().unwrap().error,
        "Chunk 4294967295 out of range (file has 3 chunks)"
    );
}

#[test]
fn a_chunk_is_fetched_step_by_step() {
    let plain = metadata(3, false);
    let finding = || match serve::get_chunk(Some(&plain), 1).unwrap() {
        ChunkSource::Boundary(next) => next,
        other => panic!("expected a boundary, got {other:?}"),
    };
    let boundary = || ChunkBoundary { chunk_id: 1, offset: 9, length: 4, hash: hash_hex(b"data") };
    assert_eq!(finding().boundary(Err("e".to_string())).err().unwrap().error, "Chunk boundary not found: e");
    let reading = finding().boundary(Ok(boundary())).unwrap();
    assert_eq!((reading.offset(), reading.length()), (9, 4));
    assert_eq!(reading.bytes(Err("e".to_string())).err().unwrap().error, "Failed to read chunk: e");
    let reading = finding().boundary(Ok(boundary())).unwrap();
    assert_eq!(reading.bytes(Ok(b"Data".to_vec())).err().unwrap().error, "Chunk 1 integrity check failed");
    let reading = finding().boundary(Ok(boundary())).unwrap();
    assert_eq!(reading.bytes(Ok(b"data".to_vec())).unwrap().data, b"data");
    let packed = metadata(1, true);
    let legacy = || match serve::get_chunk(Some(&packed), 0).unwrap() {
        ChunkSource::Legacy(next) => next,
        other => panic!("expected a compressed file, got {other:?}"),
    };
    assert_eq!(legacy().bytes(Err("e".to_string())).err().unwrap().error, "Failed to read legacy file: e");
    assert_eq!(legacy().bytes(Ok(brotli(b"abc"))).unwrap().data, b"abc");
}

#[test]
fn a_chunk_is_served_only_intact() {
    let boundary = ChunkBoundary { chunk_id: 12, offset: 0, length: 4, hash: hash_hex(b"data") };
    let answer = serve::chunk_response(12, &boundary, b"data".to_vec()).unwrap();
    assert_eq!(answer.data, b"data");
    assert_eq!(answer.content_type, "application/octet-stream");
    assert_eq!(answer.chunk_hash, Some(boundary.hash.clone()));
    let answer = serve::chunk_response(12, &boundary, b"date".to_vec()).err().unwrap();
    assert_eq!(answer.error, "Chunk 12 integrity check failed");
}

#[test]
fn failures_of_serving_are_told_apart() {
    let cases = [
        (ServeStage::OpenFile, "Failed to open file: e"),
        (ServeStage::ReadFile, "Failed to read file: e"),
        (ServeStage::FindBoundary, "Chunk boundary not found: e"),
        (ServeStage::ReadChunk, "Failed to read chunk: e"),
        (ServeStage::ReadLegacy, "Failed to read legacy file: e"),
    ];
    for (stage, text) in cases {
        assert_eq!(serve::serve_failed(stage, "e").error, text);
    }
}

#[test]
fn compressed_files_are_decompressed() {
    let data: Vec<u8> = (0u32..700_000).map(|i| (i / 7) as u8).collect();
    let packed = brotli(&data);
    assert!(packed.len() < data.len());
    assert_eq!(serve::decompress_brotli(&packed).unwrap(), data);
    let mut whole = Vec::new();
    for id in 0..3 {
        let chunk = serve::get_chunk_legacy(&packed, id).unwrap();
        assert!(chunk.chunk_hash.is_none());
        whole.extend(chunk.data);
    }
    assert_eq!(whole, data);
    assert_eq!(
        serve::get_chunk_legacy(&packed, 3).err().unwrap().error,
        "Chunk start offset 786432 exceeds file size 700000"
    );
}

#[test]
fn what_is_not_compressed_is_refused() {
    let answer = serve::decompress_brotli(b"\xff\xff\xff\xff not brotli").err().unwrap();
    assert!(answer.error.starts_with("Decompression failed: "));
    let answer = serve::get_chunk_legacy(&brotli(b"abc")[..2], 0).err().unwrap();
    assert!(answer.error.starts_with("Decompression failed: "));
}

#[test]
fn legacy_chunks_are_slices() {
    let data = vec![5u8; 300_000];
    assert_eq!(serve::legacy_chunk(&data, 0).unwrap().data.len(), 262_144);
    assert_eq!(serve::legacy_chunk(&data, 1).unwrap().data.len(), 300_000 - 262_144);
    assert!(serve::legacy_chunk(&data, u32::MAX).is_err());
    assert_eq!(
        serve::legacy_chunk(&[], 0).err().unwrap().error,
        "Chunk start offset 0 exceeds file size 0"
    );
}

#[test]
fn content_lies_under_its_first_two_bytes() {
    let store = FileStorage::new("/data");
    let path = store.get_file_path("abcdef");
    assert_eq!((path.base.as_str(), path.shard.as_deref(), path.name.as_str()), ("/data", Some("ab"), "abcdef"));
    let path = store.clone().get_file_path("a");
    assert_eq!((path.shard, path.name.as_str()), (None, "a"));
    assert_eq!(store.find_place("é!").unwrap().shard.as_deref(), Some("é"));
    assert!(store.find_place("aé").is_none());
    assert!(store.find_place("").unwrap().shard.is_none());
}

fn save_steps(outcomes: &[Outcome]) -> Vec<SaveStep> {
    let mut steps = vec![SaveStep::MakeParent];
    for outcome in outcomes {
        steps.push(next_save_step(steps[steps.len() - 1], *outcome));
    }
    steps
}

#[test]
fn content_comes_to_its_place_by_a_rename() {
    assert_eq!(
        save_steps(&[Outcome::Done, Outcome::Done, Outcome::Done, Outcome::Done, Outcome::Done]),
        vec![
            SaveStep::MakeParent,
            SaveStep::CheckPlace,
            SaveStep::WriteTemp,
            SaveStep::RenameTemp,
            SaveStep::Finished,
            SaveStep::Finished,
        ]
    );
    assert_eq!(next_save_step(SaveStep::CheckPlace, Outcome::Failed), SaveStep::WriteTemp);
}

#[test]
fn content_is_written_once() {
    assert_eq!(next_save_step(SaveStep::CheckPlace, Outcome::Exists), SaveStep::Finished);
    assert_eq!(save_result(SaveStep::Finished), Some(true));
    assert_eq!(save_result(SaveStep::WriteTemp), None);
}

#[test]
fn a_move_that_fails_is_told_as_success() {
    for failed in [Outcome::Exists, Outcome::Failed] {
        for removed in [Outcome::Done, Outcome::Failed] {
            let steps = save_steps(&[Outcome::Done, Outcome::Done, Outcome::Done, failed, removed, Outcome::Done]);
            assert_eq!(steps[3..], [SaveStep::RenameTemp, SaveStep::DropTemp, SaveStep::Unmoved, SaveStep::Unmoved]);
        }
    }
    assert_eq!(save_result(SaveStep::Unmoved), Some(true));
}

#[test]
fn content_that_cannot_be_written_is_abandoned() {
    for failed in [Outcome::Exists, Outcome::Failed] {
        assert_eq!(save_steps(&[failed]), vec![SaveStep::MakeParent, SaveStep::Abandoned]);
        assert_eq!(next_save_step(SaveStep::WriteTemp, failed), SaveStep::RemoveTemp);
    }
    assert_eq!(
        save_steps(&[Outcome::Done, Outcome::Done, Outcome::Failed, Outcome::Failed, Outcome::Done]),
        vec![
            SaveStep::MakeParent,
            SaveStep::CheckPlace,
            SaveStep::WriteTemp,
            SaveStep::RemoveTemp,
            SaveStep::Abandoned,
            SaveStep::Abandoned,
        ]
    );
    assert_eq!(save_result(SaveStep::Abandoned), Some(false));
}

#[test]
fn a_file_is_moved_or_copied() {
    assert_eq!(next_move_step(MoveStep::MakeParent, true), MoveStep::RenameSource);
    assert_eq!(next_move_step(MoveStep::RenameSource, true), MoveStep::Finished);
    let mut step = MoveStep::RenameSource;
    for (done, next) in [
        (false, MoveStep::CopySource),
        (true, MoveStep::SyncCopy),
        (true, MoveStep::RenameCopy),
        (true, MoveStep::RemoveSource),
        (true, MoveStep::Finished),
    ] {
        step = next_move_step(step, done);
        assert_eq!(step, next);
    }
    for step in [MoveStep::CopySource, MoveStep::SyncCopy, MoveStep::RenameCopy] {
        assert_eq!(next_move_step(step, false), MoveStep::RemoveCopy);
    }
    assert_eq!(next_move_step(MoveStep::RemoveCopy, false), MoveStep::Abandoned);
    assert_eq!(next_move_step(MoveStep::MakeParent, false), MoveStep::Abandoned);
}

#[test]
fn counters_go_up_and_down() {
    let mut m = ServerMetrics::new(9);
    assert_eq!(m.started_at, 9);
    m.quic_open();
    m.quic_close();
    assert_eq!((m.active_quic_connections, m.total_quic_connections), (0, 1));
    m.quic_close();
    assert_eq!(m.active_quic_connections, u64::MAX);
    m.quic_open();
    assert_eq!(m.active_quic_connections, 0);
    assert_eq!(ServerMetrics::default().started_at, 0);
}

#[test]
fn totals_that_do_not_fit_are_noticed() {
    let mut a = metadata(1, false);
    let mut b = metadata(2, false);
    assert_eq!(totals(&vec![]), Some((0, 0)));
    a.size = u64::MAX;
    b.size = 0;
    assert_eq!(totals(&vec![a, b]), Some((u64::MAX, 3)));
    let mut a = metadata(1, false);
    a.size = u64::MAX;
    assert_eq!(totals(&vec![a, metadata(1, false)]), None);
}
