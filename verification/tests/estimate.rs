use multiqr::encoder::{EncodeFailure, SymbolVersion};
use multiqr::estimate::{classify, next_step, probe, rebalance, Probe, Step};
use multiqr::estimate_chunk;
use multiqr::Error;
use qr_code::QrCode;
use rand::Rng;

#[test]
fn test_estimate_chunk() {
    let mut rng = rand::thread_rng();
    let data = ['x' as u8; u16::MAX as usize];

    for _ in 1..100 {
        let size = rng.gen::<u16>() as usize;
        let data = &data[..size];
        let version: u8 = rng.gen::<u8>() % 40 + 1;
        let chunk = estimate_chunk(data.as_ref(), version).unwrap();
        println!("size:{size} chunk:{chunk} version:{version}");

        assert!(chunk <= size);
        assert!(chunk > 0);
    }
}

fn xs(len: usize) -> Vec<u8> {
    vec![b'x'; len]
}

#[test]
fn version_zero_is_invalid() {
    assert_eq!(estimate_chunk(b"hello", 0), Err(Error::InvalidVersion));
    assert_eq!(estimate_chunk(b"", 0), Err(Error::InvalidVersion));
}

#[test]
fn version_forty_one_is_invalid() {
    assert_eq!(estimate_chunk(b"hello", 41), Err(Error::InvalidVersion));
    assert_eq!(estimate_chunk(b"hello", 255), Err(Error::InvalidVersion));
}

#[test]
fn empty_content_is_refused_for_every_valid_version() {
    for version in 1..=40u8 {
        assert_eq!(estimate_chunk(b"", version), Err(Error::EmptyContent));
    }
}

#[test]
fn ten_thousand_bytes_at_version_one() {
    let content = xs(10_000);
    let chunk = estimate_chunk(&content, 1).unwrap();
    assert_eq!(chunk, 9);
    assert_eq!(probe(&content, chunk), Probe::Encoded(1));
}

#[test]
fn largest_buffer_at_version_one() {
    assert_eq!(estimate_chunk(&xs(65_535), 1), Ok(7));
}

#[test]
fn known_chunk_sizes() {
    assert_eq!(estimate_chunk(&xs(40_000), 20), Ok(616));
    assert_eq!(estimate_chunk(&xs(3_000), 40), Ok(1501));
    assert_eq!(estimate_chunk(&xs(2_000), 13), Ok(286));
    assert_eq!(estimate_chunk(&xs(500), 7), Ok(101));
    assert_eq!(estimate_chunk(&xs(100), 3), Ok(34));
}

#[test]
fn small_content_stays_whole() {
    let content = b"hello";
    for version in 2..=40u8 {
        assert_eq!(estimate_chunk(content, version), Ok(content.len()));
    }
}

#[test]
fn small_content_of_the_wanted_version_is_rebalanced() {
    // Five bytes have version 1: two pieces, three bytes each at most.
    assert_eq!(estimate_chunk(b"hello", 1), Ok(3));
    assert_eq!(estimate_chunk(&xs(14), 1), Ok(8));
    assert_eq!(estimate_chunk(b"x", 1), Ok(1));
}

#[test]
fn single_byte_stays_whole() {
    assert_eq!(estimate_chunk(b"x", 2), Ok(1));
    assert_eq!(estimate_chunk(b"x", 40), Ok(1));
}

#[test]
fn buffer_at_the_edge_of_the_largest_code() {
    assert_eq!(estimate_chunk(&xs(2_331), 40), Ok(1166));
    // One byte more fits no code; the search grows back to the whole buffer.
    assert_eq!(estimate_chunk(&xs(2_332), 40), Ok(2332));
}

#[test]
fn larger_versions_give_larger_chunks() {
    let content = xs(3_000);
    let mut last = 0;
    for version in [1u8, 5, 10, 20, 30, 40] {
        let chunk = estimate_chunk(&content, version).unwrap();
        assert!(chunk >= last, "version {version}: {chunk} < {last}");
        last = chunk;
    }
}

#[test]
fn estimate_is_repeatable() {
    let content = xs(700);
    assert_eq!(estimate_chunk(&content, 9), estimate_chunk(&content, 9));
}

fn sample(seed: u64, cases: usize, longest: u64) {
    let data = xs(longest as usize);
    let mut state = seed;
    for _ in 0..cases {
        state = state.wrapping_mul(6364136223846793005).wrapping_add(1442695040888963407);
        let size = ((state >> 33) % longest + 1) as usize;
        let version = ((state >> 20) % 40 + 1) as u8;
        let chunk = estimate_chunk(&data[..size], version).unwrap();
        assert!(0 < chunk && chunk <= size, "size {size} version {version} chunk {chunk}");
    }
}

#[test]
fn random_short_buffers_stay_in_bounds() {
    sample(7, 1_000, 600);
}

#[test]
fn random_long_buffers_stay_in_bounds() {
    sample(11, 1_000, 65_535);
}

#[test]
fn random_medium_buffers_stay_in_bounds() {
    sample(13, 1_000, 5_000);
}

#[test]
fn probe_reads_the_version() {
    let content = xs(3_000);
    assert_eq!(probe(&content, 7), Probe::Encoded(1));
    assert_eq!(probe(&content, 14), Probe::Encoded(1));
    assert_eq!(probe(&content, 15), Probe::Encoded(2));
    assert_eq!(probe(&content, 2_331), Probe::Encoded(40));
    assert_eq!(probe(&content, 2_332), Probe::CapacityExceeded);
    assert_eq!(probe(&content, 0), Probe::Encoded(1));
}

#[test]
fn probe_agrees_with_the_drawn_code() {
    let mixed: Vec<u8> = (0..2_400u32).map(|i| b"0123456789ABCDEF xyz$%*"[(i % 23) as usize]).collect();
    for total in [0usize, 1, 14, 15, 26, 27, 100, 333, 1_000, 2_000, 2_400] {
        let drawn = match QrCode::new(&mixed[..total]) {
            Ok(code) => match code.version() {
                qr_code::Version::Normal(version) => Probe::Encoded(version),
                qr_code::Version::Micro(_) => Probe::Failed,
            },
            Err(qr_code::types::QrError::DataTooLong) => Probe::CapacityExceeded,
            Err(_) => Probe::Failed,
        };
        assert_eq!(probe(&mixed, total), drawn, "prefix of {total} bytes");
    }
}

#[test]
fn probe_depends_on_the_kind_of_bytes() {
    // Digits pack tighter than letters.
    let digits = vec![b'7'; 34];
    let letters = xs(34);
    assert_eq!(probe(&digits, 34), Probe::Encoded(1));
    assert_eq!(probe(&letters, 34), Probe::Encoded(3));
}

#[test]
fn classify_tells_outcomes_apart() {
    assert_eq!(classify(Ok(SymbolVersion::Normal(12))), Probe::Encoded(12));
    assert_eq!(classify(Ok(SymbolVersion::Micro(2))), Probe::Failed);
    assert_eq!(classify(Err(EncodeFailure::DataTooLong)), Probe::CapacityExceeded);
    assert_eq!(classify(Err(EncodeFailure::InvalidVersion)), Probe::Failed);
    assert_eq!(classify(Err(EncodeFailure::UnsupportedCharacterSet)), Probe::Failed);
    assert_eq!(classify(Err(EncodeFailure::InvalidEciDesignator)), Probe::Failed);
    assert_eq!(classify(Err(EncodeFailure::InvalidCharacter)), Probe::Failed);
    assert_eq!(classify(Err(EncodeFailure::Structured)), Probe::Failed);
}

#[test]
fn step_halves_on_capacity_exceeded() {
    assert_eq!(next_step(10_000, 10_000, 1, Probe::CapacityExceeded), Step::Retry(5_000));
    assert_eq!(next_step(10_000, 5, 1, Probe::CapacityExceeded), Step::Retry(2));
}

#[test]
fn step_halves_on_too_high_a_version() {
    assert_eq!(next_step(100, 81, 3, Probe::Encoded(5)), Step::Retry(40));
}

#[test]
fn step_grows_by_half_on_too_low_a_version() {
    assert_eq!(next_step(100, 40, 7, Probe::Encoded(3)), Step::Retry(60));
    assert_eq!(next_step(100, 41, 7, Probe::Encoded(3)), Step::Retry(61));
}

#[test]
fn step_ends_with_the_whole_buffer() {
    assert_eq!(next_step(5, 5, 7, Probe::Encoded(1)), Step::Finished(5));
    assert_eq!(next_step(100, 80, 7, Probe::Encoded(3)), Step::Finished(100));
    assert_eq!(next_step(90, 60, 7, Probe::Encoded(3)), Step::Finished(90));
}

#[test]
fn step_rebalances_on_the_wanted_version() {
    assert_eq!(next_step(10_000, 9, 1, Probe::Encoded(1)), Step::Finished(9));
    assert_eq!(next_step(30, 7, 1, Probe::Encoded(1)), Step::Finished(7));
    assert_eq!(next_step(5, 5, 1, Probe::Encoded(1)), Step::Finished(3));
}

#[test]
fn step_stalls_where_the_prefix_cannot_move() {
    assert_eq!(next_step(100, 1, 7, Probe::Encoded(8)), Step::Stalled);
    assert_eq!(next_step(100, 1, 7, Probe::CapacityExceeded), Step::Stalled);
    assert_eq!(next_step(100, 1, 7, Probe::Encoded(3)), Step::Stalled);
}

#[test]
fn step_gives_up_on_a_failed_probe() {
    assert_eq!(next_step(100, 80, 7, Probe::Failed), Step::Fatal);
}

#[test]
fn rebalance_spreads_the_remainder() {
    assert_eq!(rebalance(10, 3), 3);
    assert_eq!(rebalance(12, 4), 4);
    assert_eq!(rebalance(9, 4), 4);
    assert_eq!(rebalance(10_000, 9), 9);
    assert_eq!(rebalance(100, 100), 51);
    assert_eq!(rebalance(1, 1), 1);
    assert_eq!(rebalance(usize::MAX, 1), 1);
}

#[test]
fn rebalance_never_exceeds_the_prefix() {
    for len in 1..200usize {
        for total in 1..=len {
            let chunk = rebalance(len, total);
            assert!(1 <= chunk && chunk <= total);
            assert_eq!(chunk, len / (len / total + 1) + 1);
        }
    }
}
