//! The framebuffer record-chain walk and the maps-listing parsers.

use reader_buddy::errors::Error;
use reader_buddy::framebuffer::{
    chain_walk, gpu_mapping_end, le32, rm2_framebuffer_offset, ChainState,
};

fn header(len: u32) -> Vec<u8> {
    let b = len.to_le_bytes();
    vec![b[0], b[1], b[2], b[3], 0, 0, 0, 0]
}

#[test]
fn le32_is_little_endian() {
    assert_eq!(le32(&[0x78, 0x56, 0x34, 0x12]), 0x1234_5678);
    assert_eq!(le32(&[2, 0, 0, 0]), 2);
}

#[test]
fn chain_reconstructs_expected_total_offset() {
    // Advances: 2-2 = 0, then 10-2 = 8, then 20-2 = 18 gives 26, where
    // the decoded length 60 covers the frame of 50.
    let headers = vec![header(10), header(20), header(60)];
    assert_eq!(chain_walk(&headers, 50), Ok(26));
}

#[test]
fn chain_done_immediately_when_first_length_covers_frame() {
    let headers = vec![header(100)];
    assert_eq!(chain_walk(&headers, 2), Ok(0));
}

#[test]
fn short_record_is_corrupt_layout() {
    let headers = vec![header(10), header(1)];
    assert_eq!(chain_walk(&headers, 50), Err(Error::CorruptLayout));
    let zero = vec![header(0)];
    assert_eq!(chain_walk(&zero, 50), Err(Error::CorruptLayout));
}

#[test]
fn exhausted_chain_is_corrupt_layout_not_a_hang() {
    let headers = vec![header(10), header(10)];
    assert_eq!(chain_walk(&headers, 1_000_000), Err(Error::CorruptLayout));
    assert_eq!(chain_walk(&Vec::new(), 1_000_000), Err(Error::CorruptLayout));
}

#[test]
fn chain_state_step_and_header_offset() {
    let st = ChainState::start();
    assert_eq!(st.header_offset(), 8);
    let next = st.step(&header(300)).unwrap();
    assert_eq!(next.offset, 0);
    assert_eq!(next.length, 300);
    assert_eq!(next.header_offset(), 306);
    assert_eq!(st.step(&header(1)), Err(Error::CorruptLayout));
}

#[test]
fn rm2_offset_reads_the_line_after_the_match() {
    let maps = "aaaa0000-aaaa1000 rw-s 00000000 00:06 406 /dev/fb0\n\
                deadbeef-deadffff rw-s 00000000 00:06 406 anon\n\
                11110000-11111000 r--p 00000000 00:00 0";
    assert_eq!(rm2_framebuffer_offset(maps), Ok(0xdead_beef + 7));
}

#[test]
fn rm2_offset_without_mapping_is_device_not_found() {
    assert_eq!(
        rm2_framebuffer_offset("aaaa0000-aaaa1000 rw-s 0 00:06 1 /dev/fb1\n"),
        Err(Error::DeviceNotFound)
    );
}

#[test]
fn gpu_mapping_end_takes_the_last_match() {
    let maps = "7f000000-7f100000 rw-s 00000000 00:06 406 /dev/dri/card0\n\
                80000000-80200000 rw-s 00000000 00:06 406 /dev/dri/card0\n\
                90000000-90001000 r--p 00000000 00:00 0 other";
    assert_eq!(gpu_mapping_end(maps), Ok(0x8020_0000));
}

#[test]
fn gpu_mapping_end_without_mapping_is_device_not_found() {
    assert_eq!(gpu_mapping_end("no gpu lines here"), Err(Error::DeviceNotFound));
}
