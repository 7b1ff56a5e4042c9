use anna_sync::bitfield::{encode_bitfield, has_chunk};
use anna_sync::cdc::{process_file, ChunkRecorder, CDC_AVG_SIZE, CDC_MAX_SIZE, CDC_MIN_SIZE};
use anna_sync::hashing::{hash_hex, StreamHasher};
use anna_sync::tracker::ChunkTracker;

const EMPTY_HASH: &str = "af1349b9f5f9a1a6a0404dea36dcc9499bcb25c9adc112b7cc9a93cae41f3262";

fn noise(n: usize) -> Vec<u8> {
    let mut state: u32 = 99;
    (0..n)
        .map(|_| {
            state = state.wrapping_mul(1_664_525).wrapping_add(1_013_904_223);
            (state >> 24) as u8
        })
        .collect()
}

#[test]
fn the_hash_of_nothing_is_known() {
    assert_eq!(hash_hex(&[]), EMPTY_HASH);
    assert_eq!(StreamHasher::new().finish(), EMPTY_HASH);
    assert_eq!(StreamHasher::new().finish_encoded(), EMPTY_HASH);
}

#[test]
fn a_hash_does_not_depend_on_how_the_data_is_cut() {
    let data = noise(10_000);
    let mut pieces = StreamHasher::new();
    for piece in data.chunks(37) {
        pieces.update(piece);
    }
    assert_eq!(pieces.finish(), hash_hex(&data));
    assert_eq!(pieces.finish_encoded(), hash_hex(&data));
    assert_eq!(pieces.finish(), blake3::hash(&data).to_hex().to_string());
}

#[test]
fn chunk_sizes_are_fixed() {
    assert_eq!(CDC_MIN_SIZE, 256 * 1024);
    assert_eq!(CDC_AVG_SIZE, 1024 * 1024);
    assert_eq!(CDC_MAX_SIZE, 4 * 1024 * 1024);
}

#[test]
fn an_empty_file_has_no_chunks() {
    let (hash, size, chunks) = process_file(&[]);
    assert_eq!(hash, EMPTY_HASH);
    assert_eq!(size, 0);
    assert!(chunks.is_empty());
}

#[test]
fn a_small_file_is_one_chunk() {
    let (hash, size, chunks) = process_file(b"hello");
    assert_eq!(size, 5);
    assert_eq!(chunks.len(), 1);
    assert_eq!((chunks[0].chunk_id, chunks[0].offset, chunks[0].length), (0, 0, 5));
    assert_eq!(chunks[0].hash, hash);
}

#[test]
fn chunks_cover_the_file_and_keep_to_the_sizes() {
    let data = noise(9_000_000);
    let (_, _, chunks) = process_file(&data);
    assert!(chunks.len() > 2);
    let mut end = 0u64;
    for (i, chunk) in chunks.iter().enumerate() {
        assert_eq!(chunk.chunk_id, i as u32);
        assert_eq!(chunk.offset, end);
        end += chunk.length as u64;
        assert!(chunk.length <= CDC_MAX_SIZE);
        assert!(i + 1 == chunks.len() || chunk.length >= CDC_MIN_SIZE);
        assert_eq!(chunk.hash, hash_hex(&data[chunk.offset as usize..end as usize]));
    }
    assert_eq!(end, data.len() as u64);
}

#[test]
fn an_insertion_leaves_the_chunks_behind_it_alone() {
    let data = noise(9_000_000);
    let mut longer = b"inserted".to_vec();
    longer.extend(&data);
    let (_, _, before) = process_file(&data);
    let (_, _, after) = process_file(&longer);
    assert_eq!(before.last().unwrap().hash, after.last().unwrap().hash);
}

#[test]
fn what_lies_behind_a_boundary_is_chunked_alike_by_itself() {
    let data = noise(9_000_000);
    let (_, _, whole) = process_file(&data);
    assert!(whole.len() > 2);
    for k in 0..whole.len() {
        let start = whole[k].offset;
        let (_, size, rest) = process_file(&data[start as usize..]);
        assert_eq!(size, data.len() as u64 - start);
        assert_eq!(rest.len(), whole.len() - k);
        for (a, b) in rest.iter().zip(&whole[k..]) {
            assert_eq!((a.offset, a.length, &a.hash), (b.offset - start, b.length, &b.hash));
        }
    }
}

#[test]
fn recorded_pieces_follow_one_another() {
    let recorder = ChunkRecorder::new().record(b"abc").record(b"de");
    assert_eq!(recorder.count(), 2);
    assert_eq!(recorder.total(), 5);
    let chunks = recorder.finish();
    assert_eq!((chunks[0].chunk_id, chunks[0].offset, chunks[0].length), (0, 0, 3));
    assert_eq!((chunks[1].chunk_id, chunks[1].offset, chunks[1].length), (1, 3, 2));
    assert_eq!(chunks[1].hash, hash_hex(b"de"));
    assert_eq!(chunks[1].clone().hash, chunks[1].hash);
}

#[test]
fn the_first_chunk_is_the_most_significant_bit() {
    assert_eq!(encode_bitfield(&vec![0]), vec![0x80]);
    assert_eq!(encode_bitfield(&vec![7]), vec![0x01]);
    assert_eq!(encode_bitfield(&vec![8]), vec![0x00, 0x80]);
    assert_eq!(encode_bitfield(&vec![]), Vec::<u8>::new());
    assert_eq!(encode_bitfield(&vec![9, 0, 3, 0]), vec![0x90, 0x40]);
}

#[test]
fn a_bitmap_is_read_as_it_was_written() {
    let ids = vec![1, 5, 17, 30];
    let bits = encode_bitfield(&ids);
    let read: Vec<u32> = (0..100).filter(|id| has_chunk(&bits, *id)).collect();
    assert_eq!(read, ids);
    assert!(!has_chunk(&bits, u32::MAX));
}

fn tracker() -> ChunkTracker {
    let mut t = ChunkTracker::new();
    for id in 0..4 {
        t.add_chunk("f", id);
    }
    t
}

fn sorted<T: Ord>(mut list: Vec<T>) -> Vec<T> {
    list.sort();
    list
}

#[test]
fn a_new_tracker_knows_nothing() {
    let t = ChunkTracker::new();
    assert!(t.get_available_chunks("f").is_empty());
    assert!(t.get_peers_for_chunk("f", 0).is_empty());
    assert!(t.get_server_bitfield("f").is_empty());
}

#[test]
fn known_chunks_have_no_peers_at_first() {
    let t = tracker();
    assert_eq!(sorted(t.get_available_chunks("f")), vec![0, 1, 2, 3]);
    assert_eq!(t.get_server_bitfield("f"), vec![0xf0]);
    assert!(t.get_peers_for_chunk("f", 2).is_empty());
}

#[test]
fn a_peer_is_listed_once() {
    let mut t = tracker();
    t.add_peer_chunk("f", 2, "p".to_string());
    t.add_peer_chunk("f", 2, "p".to_string());
    t.add_peer_chunk("f", 2, "q".to_string());
    assert_eq!(sorted(t.get_peers_for_chunk("f", 2)), vec!["p", "q"]);
    assert!(t.get_peers_for_chunk("f", 1).is_empty());
    assert!(t.get_peers_for_chunk("g", 2).is_empty());
}

#[test]
fn adding_a_chunk_again_forgets_its_peers() {
    let mut t = tracker();
    t.add_peer_chunk("f", 2, "p".to_string());
    t.add_chunk("f", 2);
    assert!(t.get_peers_for_chunk("f", 2).is_empty());
}

#[test]
fn a_removed_peer_holds_nothing() {
    let mut t = tracker();
    t.add_peer_chunk("f", 1, "p".to_string());
    t.add_peer_chunk("f", 1, "q".to_string());
    t.add_peer_chunk("g", 7, "p".to_string());
    t.remove_peer("p");
    assert_eq!(t.get_peers_for_chunk("f", 1), vec!["q"]);
    assert!(t.get_peers_for_chunk("g", 7).is_empty());
    assert_eq!(t.get_available_chunks("g"), vec![7]);
    assert_eq!(t.get_available_chunks("f").len(), 4);
}

#[test]
fn a_bitfield_replaces_what_the_peer_had() {
    let mut t = tracker();
    t.add_peer_chunk("f", 0, "p".to_string());
    t.add_peer_chunk("f", 0, "q".to_string());
    t.add_peer_chunk("f", 9, "p".to_string());
    t.set_peer_bitfield("f", "p", &[0x60, 0xff], 4);
    assert_eq!(t.get_peers_for_chunk("f", 0), vec!["q"]);
    assert_eq!(t.get_peers_for_chunk("f", 1), vec!["p"]);
    assert_eq!(t.get_peers_for_chunk("f", 2), vec!["p"]);
    assert!(t.get_peers_for_chunk("f", 3).is_empty());
    assert_eq!(t.get_peers_for_chunk("f", 9), vec!["p"], "beyond the count nothing changes");
    assert!(t.get_peers_for_chunk("f", 8).is_empty());
}

#[test]
fn a_short_bitfield_denies_what_it_does_not_reach() {
    let mut t = tracker();
    t.add_seeder("f", 4, "p");
    assert_eq!(t.get_peers_for_chunk("f", 3), vec!["p"]);
    t.set_peer_bitfield("f", "p", &[], 4);
    for id in 0..4 {
        assert!(t.get_peers_for_chunk("f", id).is_empty());
    }
}

#[test]
fn a_seeder_of_nothing_changes_nothing() {
    let mut t = ChunkTracker::new();
    t.add_seeder("f", 0, "p");
    assert!(t.get_available_chunks("f").is_empty());
}

#[test]
fn rare_chunks_come_first_and_equals_keep_their_order() {
    let mut t = tracker();
    t.add_peer_chunk("f", 0, "a".to_string());
    t.add_peer_chunk("f", 0, "b".to_string());
    t.add_peer_chunk("f", 1, "a".to_string());
    t.add_peer_chunk("f", 3, "b".to_string());
    let plan = t.get_rarest_chunk_assignments("f", &[0, 3, 1, 2, 77]);
    let ids: Vec<u32> = plan.iter().map(|a| a.chunk_id).collect();
    assert_eq!(ids, vec![2, 77, 3, 1, 0]);
    assert!(plan[0].peers.is_empty());
    assert!(plan[1].peers.is_empty());
    assert_eq!(plan[2].peers, vec!["b"]);
    assert_eq!(sorted(plan[4].peers.clone()), vec!["a", "b"]);
}

#[test]
fn a_chunk_that_is_asked_for_twice_comes_twice() {
    let t = tracker();
    let plan = t.get_rarest_chunk_assignments("f", &[1, 0, 1]);
    let ids: Vec<u32> = plan.iter().map(|a| a.chunk_id).collect();
    assert_eq!(ids, vec![1, 0, 1]);
    assert!(t.get_rarest_chunk_assignments("f", &[]).is_empty());
}
