use slsk_core::io::bandwidth::{Acquire, TokenBucket};
use slsk_core::io::disk_reader::{next_chunk_size, CHUNK_INITIAL, CHUNK_MAX};
use slsk_core::io::reader::{next_recv_size, CHANNEL_CAPACITY, RECV_INITIAL, RECV_MAX};
use slsk_core::io::writer::after_chunk;
use slsk_core::profiles::{add_profile, remove_profile, Profile};

#[test]
fn per_transfer_limit_splits_evenly() {
    assert_eq!(TokenBucket::per_transfer_limit(1_000_000, 4), 250_000);
    assert_eq!(TokenBucket::per_transfer_limit(1_000_000, 0), 0);
    assert_eq!(TokenBucket::per_transfer_limit(0, 4), 0);
}

#[test]
fn unlimited_bucket_returns_full_request() {
    let mut bucket = TokenBucket::new(0);
    let got = bucket.acquire_step(50_000, bucket.now_ms());
    assert_eq!(got, Acquire::Granted(50_000));
}

#[test]
fn bucket_refills_each_second() {
    let mut b = TokenBucket::new(1000);
    // The first second begins at creation with an empty bucket.
    assert_eq!(b.acquire_step(10, 200), Acquire::Wait(800));
    assert_eq!(b.acquire_step(600, 1000), Acquire::Granted(600));
    assert_eq!(b.acquire_step(400, 1500), Acquire::Granted(400));
    assert_eq!(b.acquire_step(1, 1700), Acquire::Wait(300));
    assert_eq!(b.acquire_step(1, 2000), Acquire::Granted(1));
    let c = b.clone();
    let mut c = c;
    assert_eq!(c.acquire_step(999, 2100), Acquire::Granted(999));
}

#[test]
fn disk_reader_constants() {
    assert_eq!(CHUNK_INITIAL, 4_096);
    assert_eq!(CHUNK_MAX, 512 * 1024);
    assert_eq!(slsk_core::io::disk_reader::CHANNEL_CAPACITY, 16);
}

#[test]
fn reader_constants() {
    assert_eq!(RECV_INITIAL, 51_200);
    assert_eq!(RECV_MAX, 4 * 1024 * 1024);
    assert_eq!(CHANNEL_CAPACITY, 16);
}

#[test]
fn adaptive_sizes() {
    assert_eq!(next_recv_size(RECV_INITIAL, RECV_INITIAL), 2 * RECV_INITIAL);
    assert_eq!(next_recv_size(RECV_MAX, RECV_MAX), RECV_MAX);
    assert_eq!(next_recv_size(600_000, 100_000), 300_000);
    assert_eq!(next_recv_size(60_000, 1_000), RECV_INITIAL);
    assert_eq!(next_recv_size(600_000, 200_000), 600_000);
    assert_eq!(next_chunk_size(4_096), 5_120);
    assert_eq!(next_chunk_size(10), CHUNK_INITIAL);
    assert_eq!(next_chunk_size(419_430), 524_287);
    assert_eq!(next_chunk_size(419_431), CHUNK_MAX);
    assert_eq!(next_chunk_size(usize::MAX), CHUNK_MAX);
    assert_eq!(after_chunk(5, 6, 11), (11, true));
    assert_eq!(after_chunk(0, 5, 11), (5, false));
}

fn profile(name: &str, user: &str) -> Profile {
    Profile { name: name.into(), username: user.into(), password: None }
}

#[test]
fn profiles_replace_and_remove() {
    let mut ps = vec![profile("a", "alice"), profile("b", "bob")];
    add_profile(&mut ps, profile("a2", "alice"));
    let names: Vec<&str> = ps.iter().map(|p| p.name.as_str()).collect();
    assert_eq!(names, vec!["b", "a2"]);
    remove_profile(&mut ps, "bob");
    let names: Vec<&str> = ps.iter().map(|p| p.name.as_str()).collect();
    assert_eq!(names, vec!["a2"]);
    remove_profile(&mut ps, "nobody");
    assert_eq!(ps.len(), 1);
}
