//! Whole requests, as the server puts them together: a real database, real chunking, and
//! the files in memory.

use std::collections::HashMap;

use anna_sync::auth::OptionalUser;
use anna_sync::cdc::{ChunkBoundary, ChunkRecorder, CDC_AVG_SIZE, CDC_MAX_SIZE, CDC_MIN_SIZE};
use anna_sync::database;
use anna_sync::files::{CheckResponse, ErrorResponse, FileMetadata, UploadResponse};
use anna_sync::folders::{self, ListFoldersQuery};
use anna_sync::serve::{self, ChunkResponse, ChunkSource, Download};
use anna_sync::signaling::{Action, PeerInfo, ServerMessage, SignalHub, SignalMessage};
use anna_sync::sql::{SqlValue, Statement};
use anna_sync::status::{self, ServerMetrics, ServerStatus, Transport};
use anna_sync::upload::{self, Settled};
use r2d2_sqlite::rusqlite::{self, types::Value, Connection};

const NOW: i64 = 1_700_000_000;

struct TestServer {
    db: Connection,
    stored: HashMap<String, Vec<u8>>,
    hub: SignalHub,
    metrics: ServerMetrics,
}

fn bound(value: &SqlValue) -> Value {
    match value {
        SqlValue::Null => Value::Null,
        SqlValue::Integer(n) => Value::Integer(*n),
        SqlValue::Text(s) => Value::Text(s.clone()),
        SqlValue::Other => Value::Null,
    }
}

fn found(value: Value) -> SqlValue {
    match value {
        Value::Null => SqlValue::Null,
        Value::Integer(n) => SqlValue::Integer(n),
        Value::Text(s) => SqlValue::Text(s),
        _ => SqlValue::Other,
    }
}

fn execute(db: &Connection, statement: &Statement) {
    let values = statement.params.iter().map(bound);
    db.execute(statement.sql, rusqlite::params_from_iter(values)).unwrap();
}

fn query(db: &Connection, statement: &Statement) -> Vec<Vec<SqlValue>> {
    let mut prepared = db.prepare(statement.sql).unwrap();
    let columns = prepared.column_count();
    let values = statement.params.iter().map(bound);
    let mut rows = prepared.query(rusqlite::params_from_iter(values)).unwrap();
    let mut all = Vec::new();
    while let Some(row) = rows.next().unwrap() {
        all.push((0..columns).map(|i| found(row.get::<usize, Value>(i).unwrap())).collect());
    }
    all
}

impl TestServer {
    fn start() -> Self {
        let db = Connection::open_in_memory().unwrap();
        db.execute_batch(database::PRAGMAS).unwrap();
        db.execute_batch(database::SCHEMA).unwrap();
        TestServer {
            db,
            stored: HashMap::new(),
            hub: SignalHub::new(),
            metrics: ServerMetrics::new(NOW),
        }
    }

    fn chunks_of(data: &[u8]) -> Vec<ChunkBoundary> {
        let chunker = fastcdc::v2020::StreamCDC::new(data, CDC_MIN_SIZE, CDC_AVG_SIZE, CDC_MAX_SIZE);
        let mut recorder = ChunkRecorder::new();
        for piece in chunker {
            let piece = piece.unwrap();
            assert_eq!(piece.offset, recorder.total());
            recorder = recorder.record(&piece.data);
        }
        recorder.finish()
    }

    fn upload(&mut self, name: &str, bytes: &[u8], backup: bool) -> Result<UploadResponse, ErrorResponse> {
        let flag = if backup { Some("true") } else { None };
        let form = upload::begin_upload(flag)?;
        assert!(form.is_file_field(Some("file")));
        let mut file = form.file(Some(name.to_string()), Some("application/octet-stream".to_string()));
        for piece in bytes.chunks(1000) {
            file = file.absorb(piece);
        }
        let received = file.finish();
        let exists = self.stored.contains_key(&received.hash);
        let fresh = match received.settle(exists, self.hub.chunk_tracker()) {
            Settled::Exists { answer, discard_temp } => {
                assert!(discard_temp);
                return Ok(answer);
            }
            Settled::New(file) => file,
        };
        let chunked = fresh.chunked(Ok(Self::chunks_of(bytes))).unwrap();
        self.stored.insert(chunked.hash().to_string(), bytes.to_vec());
        let stored = chunked.stored(Ok(())).unwrap();
        execute(&self.db, &database::save_file(&stored.metadata(NOW)));
        let recorded = stored.recorded(Ok(())).unwrap();
        for statement in recorded.chunk_statements() {
            execute(&self.db, &statement);
        }
        Ok(self.hub.upload_stored(recorded.chunks_recorded(Ok(())).unwrap()))
    }

    fn upload_ok(&mut self, name: &str, bytes: &[u8]) -> UploadResponse {
        self.upload(name, bytes, true).unwrap()
    }

    fn file(&self, hash: &str) -> Option<FileMetadata> {
        query(&self.db, &database::get_file(hash)).first().map(|row| database::read_file(row).unwrap())
    }

    fn files(&self) -> Vec<FileMetadata> {
        let rows = query(&self.db, &database::list_files());
        serve::list_files(Some(rows.iter().map(|row| database::read_file(row).unwrap()).collect())).unwrap()
    }

    fn check(&self, hash: &str) -> CheckResponse {
        serve::check_file(hash, self.stored.contains_key(hash), self.hub.chunk_tracker())
    }

    fn download(&self, hash: &str) -> Result<Vec<u8>, ErrorResponse> {
        match serve::plan_download(self.file(hash))? {
            Download::Stream { .. } => Ok(self.stored[hash].clone()),
            Download::Decompress { .. } => serve::decompress_brotli(&self.stored[hash]),
        }
    }

    fn chunks(&self, hash: &str) -> Vec<ChunkBoundary> {
        let rows = query(&self.db, &database::get_chunks(hash));
        serve::list_chunks(Ok(rows.iter().map(|row| database::read_chunk(row).unwrap()).collect())).unwrap()
    }

    fn chunk(&self, hash: &str, id: u32) -> Result<ChunkResponse, ErrorResponse> {
        let metadata = self.file(hash);
        match serve::get_chunk(metadata.as_ref(), id)? {
            ChunkSource::Legacy(next) => next.bytes(Ok(self.stored[hash].clone())),
            ChunkSource::Boundary(next) => {
                let rows = query(&self.db, &database::get_chunk_boundary(hash, id));
                let next = next.boundary(Ok(database::read_chunk(&rows[0]).unwrap()))?;
                let start = next.offset() as usize;
                let data = self.stored[hash][start..start + next.length() as usize].to_vec();
                next.bytes(Ok(data))
            }
        }
    }

    fn status(&self, now: i64) -> ServerStatus {
        let files = self.files();
        assert!(status::totals(&files).is_some());
        status::build_status("1.4.0", &self.metrics, now, &self.hub, Some(files), Transport::Tcp)
    }

    fn peers(&self) -> Vec<PeerInfo> {
        self.hub.list_peers()
    }
}

fn cycle(n: usize) -> Vec<u8> {
    (0u8..=255).cycle().take(n).collect()
}

#[test]
fn status_returns_ok() {
    let srv = TestServer::start();
    let body = srv.status(NOW + 5);
    assert_eq!(body.version, "1.4.0");
    assert_eq!(body.uptime_secs, 5);
    assert_eq!(body.file_count, 0);
    assert_eq!(body.peer_count, 0);
}

#[test]
fn file_list_starts_empty() {
    let srv = TestServer::start();
    assert!(srv.files().is_empty());
}

#[test]
fn upload_without_backup_flag_is_rejected() {
    let mut srv = TestServer::start();
    let answer = srv.upload("test.bin", b"hello world", false).unwrap_err();
    assert_eq!(answer.status(), 400);
    assert!(answer.error.contains("backup=true"));
    assert!(srv.stored.is_empty());
}

#[test]
fn upload_with_backup_flag_succeeds() {
    let mut srv = TestServer::start();
    let data = cycle(1024);
    let body = srv.upload("sample.bin", &data, true).unwrap();
    assert_eq!(body.status, "success");
    assert_eq!(body.hash.len(), 64, "BLAKE3 hex is 64 chars");
    assert_eq!(body.hash, blake3::hash(&data).to_hex().to_string());
    assert_eq!(body.size, data.len() as u64);
    assert!(body.chunk_count >= 1);
}

#[test]
fn duplicate_upload_returns_exists() {
    let mut srv = TestServer::start();
    let data = b"deduplicate me";
    let b1 = srv.upload_ok("a.txt", data);
    assert_eq!(b1.status, "success");
    let b2 = srv.upload_ok("b.txt", data);
    assert_eq!(b2.status, "exists");
    assert_eq!(b1.hash, b2.hash);
    assert_eq!(b1.chunk_count, b2.chunk_count);
    assert_eq!(srv.files().len(), 1);
}

#[test]
fn uploaded_file_appears_in_list() {
    let mut srv = TestServer::start();
    let data: Vec<u8> = (0u8..200).collect();
    let body = srv.upload_ok("listed.bin", &data);
    let files = srv.files();
    assert_eq!(files.len(), 1);
    assert_eq!(files[0].hash, body.hash);
    assert_eq!(files[0].name, "listed.bin");
    assert!(!files[0].compressed);
}

#[test]
fn check_unknown_hash_returns_not_exists() {
    let srv = TestServer::start();
    let body = srv.check(&"a".repeat(64));
    assert!(!body.exists);
    assert!(body.chunks.is_none());
    assert!(body.bitfield.is_none());
}

#[test]
fn check_existing_file_returns_chunks() {
    let mut srv = TestServer::start();
    let data = cycle(512 * 1024);
    let upload = srv.upload_ok("chunked.bin", &data);
    let body = srv.check(&upload.hash);
    assert!(body.exists);
    let mut chunks = body.chunks.unwrap();
    chunks.sort();
    assert_eq!(chunks, (0..upload.chunk_count).collect::<Vec<u32>>());
    let bitfield = body.bitfield.unwrap();
    assert_eq!(bitfield.len(), (upload.chunk_count as usize + 7) / 8);
    assert_eq!(bitfield[0] >> 7, 1);
}

#[test]
fn download_returns_original_bytes() {
    let mut srv = TestServer::start();
    let data = cycle(4096);
    let upload = srv.upload_ok("roundtrip.bin", &data);
    assert_eq!(srv.download(&upload.hash).unwrap(), data);
}

#[test]
fn download_unknown_hash_returns_404() {
    let srv = TestServer::start();
    let answer = srv.download(&"b".repeat(64)).unwrap_err();
    assert_eq!(answer.status(), 400);
    assert_eq!(answer.error, "File not found");
}

#[test]
fn chunk_list_matches_upload_chunk_count() {
    let mut srv = TestServer::start();
    let data = cycle(600 * 1024);
    let upload = srv.upload_ok("big.bin", &data);
    let chunks = srv.chunks(&upload.hash);
    assert_eq!(chunks.len() as u32, upload.chunk_count);
    for (i, c) in chunks.iter().enumerate() {
        assert_eq!(c.chunk_id, i as u32, "chunks must be ordered and contiguous");
    }
}

#[test]
fn chunk_fetch_returns_correct_bytes() {
    let mut srv = TestServer::start();
    let data = cycle(300 * 1024);
    let upload = srv.upload_ok("fetch_chunk.bin", &data);
    let chunks = srv.chunks(&upload.hash);
    let offset = chunks[0].offset as usize;
    let length = chunks[0].length as usize;
    let answer = srv.chunk(&upload.hash, 0).unwrap();
    assert_eq!(answer.chunk_hash.unwrap(), chunks[0].hash);
    assert_eq!(answer.data, &data[offset..offset + length]);
}

#[test]
fn chunk_out_of_range_returns_error() {
    let mut srv = TestServer::start();
    let data = vec![0u8; 1024];
    let upload = srv.upload_ok("small.bin", &data);
    let answer = srv.chunk(&upload.hash, upload.chunk_count).unwrap_err();
    assert_eq!(answer.status(), 400);
    assert_eq!(answer.error, "Chunk 1 out of range (file has 1 chunks)");
}

#[test]
fn peers_starts_empty() {
    let srv = TestServer::start();
    assert!(srv.peers().is_empty());
}

fn welcomed(actions: &[Action]) -> String {
    assert_eq!(actions.len(), 1);
    match &actions[0] {
        Action::Send { to, message: ServerMessage::Welcome { peer_id } } => {
            assert_eq!(to, peer_id);
            peer_id.clone()
        }
        other => panic!("expected a welcome, got {other:?}"),
    }
}

#[test]
fn websocket_welcome_on_connect() {
    let mut srv = TestServer::start();
    let (id, actions) = srv.hub.accept(NOW);
    assert_eq!(welcomed(&actions), id);
    assert_eq!(srv.peers().len(), 1);
    assert_eq!(srv.peers()[0].id, id);
}

#[test]
fn websocket_join_room_broadcasts_peer_list() {
    let mut srv = TestServer::start();
    let (s1, _) = srv.hub.accept(NOW);
    let (s2, _) = srv.hub.accept(NOW);
    let alone = srv.hub.handle_message(&s1, SignalMessage::Join { room: "test-room".to_string() });
    assert_eq!(alone.len(), 1);
    let told = srv.hub.handle_message(&s2, SignalMessage::Join { room: "test-room".to_string() });
    assert_eq!(told.len(), 2);
    for (action, (me, other)) in told.iter().zip([(&s1, &s2), (&s2, &s1)]) {
        match action {
            Action::Send { to, message: ServerMessage::PeerList { peers } } => {
                assert_eq!(to, me);
                assert_eq!(peers, &vec![other.clone()]);
            }
            other => panic!("expected a peer list, got {other:?}"),
        }
    }
}

// ---- more of the server as a whole ----

#[test]
fn a_damaged_chunk_is_not_served() {
    let mut srv = TestServer::start();
    let data = cycle(300 * 1024);
    let upload = srv.upload_ok("damaged.bin", &data);
    srv.stored.get_mut(&upload.hash).unwrap()[10] ^= 1;
    let answer = srv.chunk(&upload.hash, 0).unwrap_err();
    assert_eq!(answer.error, "Chunk 0 integrity check failed");
}

#[test]
fn chunks_of_a_large_file_give_it_back() {
    let mut srv = TestServer::start();
    let mut state: u32 = 12345;
    let data: Vec<u8> = (0..6_000_000)
        .map(|_| {
            state = state.wrapping_mul(1_664_525).wrapping_add(1_013_904_223);
            (state >> 24) as u8
        })
        .collect();
    let upload = srv.upload_ok("large.bin", &data);
    assert!(upload.chunk_count > 1);
    let mut whole = Vec::new();
    for id in 0..upload.chunk_count {
        whole.extend(srv.chunk(&upload.hash, id).unwrap().data);
    }
    assert_eq!(whole, data);
    let (hash, size, chunks) = anna_sync::cdc::process_file(&data);
    assert_eq!(hash, upload.hash);
    assert_eq!(size, data.len() as u64);
    let stored = srv.chunks(&upload.hash);
    assert_eq!(chunks.len(), stored.len());
    for (a, b) in chunks.iter().zip(&stored) {
        assert_eq!((a.chunk_id, a.offset, a.length, &a.hash), (b.chunk_id, b.offset, b.length, &b.hash));
    }
}

#[test]
fn status_counts_files_and_peers() {
    let mut srv = TestServer::start();
    srv.upload_ok("one.bin", &cycle(1000));
    srv.upload_ok("two.bin", &cycle(300_000));
    let (id, _) = srv.hub.accept(NOW + 1);
    srv.hub.handle_message(&id, SignalMessage::Announce { files: vec!["x".to_string(), "y".to_string()] });
    srv.metrics.quic_open();
    srv.metrics.quic_open();
    srv.metrics.quic_close();
    let body = srv.status(NOW - 10);
    assert_eq!(body.uptime_secs, 0);
    assert_eq!(body.file_count, 2);
    assert_eq!(body.total_bytes, 301_000);
    assert_eq!(body.total_chunk_count, 2);
    assert_eq!(body.files.len(), 2);
    assert_eq!(body.peer_count, 1);
    assert_eq!(body.peers[0].id, id);
    assert_eq!(body.peers[0].connected_at, NOW + 1);
    assert_eq!(body.peers[0].file_count, 2);
    assert_eq!(body.active_quic_connections, 1);
    assert_eq!(body.quic_connections, 1);
    assert_eq!(body.total_quic_connections, 2);
    assert_eq!(body.transport_hint, "tcp");
    assert!(body.quic_enabled);
}

#[test]
fn status_without_database_shows_no_files() {
    let srv = TestServer::start();
    let body = status::build_status("1", &srv.metrics, NOW, &srv.hub, None, Transport::H3);
    assert_eq!(body.transport_hint, "h3");
    assert_eq!((body.file_count, body.total_bytes, body.total_chunk_count), (0, 0, 0));
    assert!(body.files.is_empty());
}

#[test]
fn announced_files_make_their_peer_a_holder() {
    let mut srv = TestServer::start();
    let upload = srv.upload_ok("shared.bin", &cycle(2000));
    let (id, _) = srv.hub.accept(NOW);
    let actions = srv.hub.handle_message(
        &id,
        SignalMessage::Announce { files: vec![upload.hash.clone(), "unknown".to_string()] },
    );
    assert_eq!(actions.len(), 2);
    for action in actions {
        match action {
            Action::LookUp { file_hash } => {
                let count = srv.file(&file_hash).map(|f| f.chunk_count);
                srv.hub.file_looked_up(&id, &file_hash, count);
            }
            other => panic!("expected a look-up, got {other:?}"),
        }
    }
    assert_eq!(srv.hub.chunk_tracker().get_peers_for_chunk(&upload.hash, 0), vec![id.clone()]);
    assert!(srv.hub.chunk_tracker().get_available_chunks("unknown").is_empty());
    srv.hub.disconnect(&id);
    assert!(srv.hub.chunk_tracker().get_peers_for_chunk(&upload.hash, 0).is_empty());
    assert_eq!(srv.hub.chunk_tracker().get_available_chunks(&upload.hash), vec![0]);
}

// ---- the tables ----

#[test]
fn every_table_gives_back_what_was_put_in() {
    let srv = TestServer::start();
    let db = &srv.db;
    let user = database::User {
        id: "u1".to_string(),
        github_id: Some("42".to_string()),
        email: None,
        name: "Ann".to_string(),
        avatar_url: Some("http://a".to_string()),
        created_at: 7,
    };
    execute(db, &database::save_user(&user));
    let read = database::read_user(&query(db, &database::get_user_by_id("u1"))[0]).unwrap();
    assert_eq!(format!("{read:?}"), format!("{user:?}"));
    let read = database::read_user(&query(db, &database::get_user_by_github_id("42"))[0]).unwrap();
    assert_eq!(read.id, "u1");
    assert!(query(db, &database::get_user_by_github_id("43")).is_empty());

    let group = database::Group {
        id: "g1".to_string(),
        owner_id: "u1".to_string(),
        name: "Friends".to_string(),
        description: None,
        created_at: 8,
    };
    execute(db, &database::create_group(&group));
    let read = database::read_group(&query(db, &database::get_group("g1"))[0]).unwrap();
    assert_eq!(format!("{read:?}"), format!("{group:?}"));
    let member = database::GroupMember {
        group_id: "g1".to_string(),
        user_id: "u1".to_string(),
        role: "owner".to_string(),
        joined_at: 9,
    };
    assert_eq!(database::is_group_member(&query(db, &database::count_group_member("g1", "u1"))[0]), Some(false));
    execute(db, &database::add_group_member(&member));
    assert_eq!(database::is_group_member(&query(db, &database::count_group_member("g1", "u1"))[0]), Some(true));
    let read = database::read_member(&query(db, &database::get_group_members("g1"))[0]).unwrap();
    assert_eq!(format!("{read:?}"), format!("{member:?}"));
    assert_eq!(query(db, &database::list_groups_for_user("u1")).len(), 1);
    execute(db, &database::remove_group_member("g1", "u1"));
    assert!(query(db, &database::get_group_members("g1")).is_empty());

    let label = database::Label {
        id: "l1".to_string(),
        owner_id: "u1".to_string(),
        name: "red".to_string(),
        color: "#f00".to_string(),
        created_at: 10,
    };
    execute(db, &database::create_label(&label));
    let read = database::read_label(&query(db, &database::list_labels_for_user("u1"))[0]).unwrap();
    assert_eq!(format!("{read:?}"), format!("{label:?}"));
    let file = FileMetadata {
        hash: "f1".to_string(),
        name: "f".to_string(),
        size: u64::MAX,
        mime_type: "text/plain".to_string(),
        uploaded_at: -1,
        chunk_count: u32::MAX,
        compressed: true,
    };
    execute(db, &database::save_file(&file));
    assert_eq!(format!("{:?}", srv.file("f1").unwrap()), format!("{file:?}"));
    execute(db, &database::add_file_label("f1", "l1"));
    execute(db, &database::add_file_label("f1", "l1"));
    assert_eq!(query(db, &database::get_file_labels("f1")).len(), 1);
    execute(db, &database::remove_file_label("f1", "l1"));
    assert!(query(db, &database::get_file_labels("f1")).is_empty());
    execute(db, &database::delete_label("l1", "someone else"));
    assert_eq!(query(db, &database::list_labels_for_user("u1")).len(), 1);
    execute(db, &database::delete_label("l1", "u1"));
    assert!(query(db, &database::list_labels_for_user("u1")).is_empty());

    let share = database::FileShare {
        file_hash: "f1".to_string(),
        owner_id: Some("u1".to_string()),
        visibility: "group".to_string(),
        group_id: Some("g1".to_string()),
        created_at: 11,
    };
    execute(db, &database::set_file_share(&share));
    let read = database::read_share(&query(db, &database::get_file_share("f1"))[0]).unwrap();
    assert_eq!(format!("{read:?}"), format!("{share:?}"));
    execute(db, &database::delete_group("g1"));
    assert!(query(db, &database::get_group("g1")).is_empty());
    execute(db, &database::delete_file("f1"));
    assert!(srv.file("f1").is_none());
}

#[test]
fn folders_are_listed_by_owner_and_parent() {
    let srv = TestServer::start();
    let db = &srv.db;
    let user = database::User {
        id: "u1".to_string(),
        github_id: None,
        email: None,
        name: "Ann".to_string(),
        avatar_url: None,
        created_at: 7,
    };
    execute(db, &database::save_user(&user));
    let folder = |id: &str, owner: Option<&str>, parent: Option<&str>| database::VirtualFolder {
        id: id.to_string(),
        owner_id: owner.map(str::to_string),
        name: id.to_string(),
        parent_id: parent.map(str::to_string),
        created_at: 1,
    };
    let all = [folder("a", Some("u1"), None), folder("b", None, None), folder("c", Some("u1"), Some("a")), folder("d", None, Some("a"))];
    for f in &all {
        execute(db, &database::create_folder(f));
    }
    let ids = |statement: Statement| -> Vec<String> {
        query(db, &statement).iter().map(|row| database::read_folder(row).unwrap().id).collect()
    };
    assert_eq!(ids(database::list_folders(Some("u1"), Some("a"))), vec!["c"]);
    assert_eq!(ids(database::list_folders(Some("u1"), None)), vec!["a"]);
    assert_eq!(ids(database::list_folders(None, Some("a"))), vec!["c", "d"]);
    assert_eq!(ids(database::list_folders(None, None)), vec!["a", "b"]);
    assert_eq!(ids(database::list_unowned_folders(Some("a"))), vec!["d"]);
    assert_eq!(ids(database::list_unowned_folders(None)), vec!["b"]);
    let roots = ListFoldersQuery { parent_id: None };
    let in_a = ListFoldersQuery { parent_id: Some("a".to_string()) };
    let ann = OptionalUser(Some(user));
    assert_eq!(ids(folders::list_folders(&ann, &roots)), vec!["a"]);
    assert_eq!(ids(folders::list_folders(&ann, &in_a)), vec!["c"]);
    assert_eq!(ids(folders::list_folders(&OptionalUser(None), &roots)), vec!["b"]);
    assert_eq!(ids(folders::list_folders(&OptionalUser(None), &in_a)), vec!["d"]);
    assert_eq!(ids(folders::list_subfolders("a")), vec!["c", "d"]);
    let read = database::read_folder(&query(db, &database::get_folder("c"))[0]).unwrap();
    assert_eq!(format!("{read:?}"), format!("{:?}", all[2]));
    let file = FileMetadata {
        hash: "f1".to_string(),
        name: "f".to_string(),
        size: 1,
        mime_type: "text/plain".to_string(),
        uploaded_at: 1,
        chunk_count: 1,
        compressed: false,
    };
    execute(db, &database::save_file(&file));
    execute(db, &database::add_file_to_folder("a", "f1"));
    let hashes: Vec<String> =
        query(db, &database::list_files_in_folder("a")).iter().map(|row| database::read_file_hash(row).unwrap()).collect();
    assert_eq!(hashes, vec!["f1"]);
    execute(db, &database::remove_file_from_folder("a", "f1"));
    assert!(query(db, &database::list_files_in_folder("a")).is_empty());
}
