use space_game::accessor::{get_data_from_accessor, AccessorLayout};
use space_game::codec::{
    can_pack, check_length_runs, pack, stated_length, unpack, unpack_outcome, CodecError,
    MAX_CONTENT_LENGTH, MAX_LENGTH_RUN,
};

#[test]
fn packed_content_comes_back() {
    let content: Vec<u8> = b"Hello people, what's up? Hello people, what's up?".to_vec();
    let packed = pack(&content).unwrap();
    assert_ne!(packed, content);
    assert_eq!(stated_length(&packed), Some(content.len() as u32));
    assert_eq!(&packed[..4], &[49, 0, 0, 0]);
    assert_eq!(unpack(&packed, LIMIT), Ok(content));
}

#[test]
fn packed_content_of_many_sizes_comes_back() {
    for length in [0usize, 1, 2, 3, 4, 5, 12, 13, 64, 255, 256, 257, 1000, 70_000] {
        let content: Vec<u8> = (0..length).map(|i| ((i * 7) % 251) as u8).collect();
        let packed = pack(&content).unwrap();
        assert!(packed.len() >= 4);
        assert_eq!(stated_length(&packed), Some(length as u32));
        assert_eq!(unpack(&packed, LIMIT), Ok(content));
        let zeros = vec![0u8; length];
        let packed = pack(&zeros).unwrap();
        assert_eq!(stated_length(&packed), Some(length as u32));
        assert_eq!(unpack(&packed, LIMIT), Ok(zeros));
    }
}

#[test]
fn malformed_bytes_are_refused() {
    assert_eq!(unpack(&[], LIMIT), Err(CodecError::Malformed));
    assert_eq!(unpack(&[1, 0, 0], LIMIT), Err(CodecError::Malformed));
    // States five bytes of content, holds one literal.
    assert_eq!(unpack(&[5, 0, 0, 0, 0x10, b'a'], LIMIT), Err(CodecError::Malformed));
    // States one byte of content, holds a literal run that is cut off.
    assert_eq!(unpack(&[1, 0, 0, 0, 0x40, b'a'], LIMIT), Err(CodecError::Malformed));
    let mut packed = pack(b"abcabcabcabcabcabcabcabc").unwrap();
    packed.truncate(packed.len() - 1);
    assert_eq!(unpack(&packed, LIMIT), Err(CodecError::Malformed));
}

#[test]
fn hand_made_block_is_unpacked() {
    // One sequence: a token for three literals and no match, then the literals.
    assert_eq!(unpack(&[3, 0, 0, 0, 0x30, b'a', b'b', b'c'], LIMIT), Ok(b"abc".to_vec()));
}

#[test]
fn stated_length_reads_four_bytes_least_significant_first() {
    assert_eq!(stated_length(&[]), None);
    assert_eq!(stated_length(&[1, 2, 3]), None);
    assert_eq!(stated_length(&[1, 0, 0, 0]), Some(1));
    assert_eq!(stated_length(&[0x78, 0x56, 0x34, 0x12, 9, 9]), Some(0x1234_5678));
    assert_eq!(stated_length(&[0xff, 0xff, 0xff, 0xff]), Some(u32::MAX));
}

#[test]
fn outcome_of_decompression_is_taken_over() {
    assert_eq!(unpack_outcome(Ok(vec![1, 2, 3])), Ok(vec![1, 2, 3]));
    let error = lz4_flex::decompress_size_prepended(&[1]).unwrap_err();
    assert_eq!(unpack_outcome(Err(error)), Err(CodecError::Malformed));
}

const LIMIT: usize = 1 << 20;

fn layout(
    view_offset: usize,
    accessor_offset: usize,
    count: usize,
    size: usize,
    stride: Option<usize>,
) -> AccessorLayout {
    AccessorLayout { view_offset, accessor_offset, count, size, stride }
}

#[test]
fn accessor_without_stride_takes_a_range_of_bytes() {
    let buffer: Vec<u8> = (0..20).collect();
    let whole = layout(0, 0, 5, 4, None);
    assert!(whole.fits(buffer.len()));
    assert_eq!(get_data_from_accessor(&buffer, whole), buffer);
    let part = layout(4, 2, 3, 2, None);
    assert!(part.fits(buffer.len()));
    assert_eq!(get_data_from_accessor(&buffer, part), vec![6, 7, 8, 9, 10, 11]);
    let nothing = layout(20, 0, 0, 4, None);
    assert!(nothing.fits(buffer.len()));
    assert_eq!(get_data_from_accessor(&buffer, nothing), Vec::<u8>::new());
}

#[test]
fn accessor_with_stride_takes_the_first_bytes_of_each_run() {
    let buffer: Vec<u8> = (0..20).collect();
    let interleaved = layout(2, 1, 4, 2, Some(3));
    assert!(interleaved.fits(buffer.len()));
    // Bytes 3 to 10 are looked at; of each run of three the first two are kept.
    assert_eq!(get_data_from_accessor(&buffer, interleaved), vec![3, 4, 6, 7, 9, 10]);
    let tight = layout(0, 0, 3, 2, Some(2));
    assert_eq!(get_data_from_accessor(&buffer, tight), vec![0, 1, 2, 3, 4, 5]);
    let narrow = layout(0, 0, 3, 2, Some(1));
    assert_eq!(get_data_from_accessor(&buffer, narrow), vec![0, 1, 2, 3, 4, 5]);
    let wide = layout(0, 0, 2, 4, Some(8));
    assert_eq!(get_data_from_accessor(&buffer, wide), vec![0, 1, 2, 3]);
}

#[test]
fn layout_fits_only_within_the_buffer() {
    assert!(layout(0, 0, 5, 4, None).fits(20));
    assert!(!layout(0, 0, 5, 4, None).fits(19));
    assert!(!layout(1, 0, 5, 4, None).fits(20));
    assert!(!layout(0, 1, 5, 4, None).fits(20));
    assert!(!layout(0, 0, 5, 4, Some(0)).fits(20));
    // A stride of zero does no harm where no byte is looked at.
    assert!(layout(3, 1, 0, 4, Some(0)).fits(20));
    assert!(layout(3, 1, 5, 0, Some(0)).fits(20));
    assert!(!layout(20, 1, 0, 4, Some(0)).fits(20));
    assert_eq!(get_data_from_accessor(&[1, 2, 3, 4, 5], layout(3, 1, 0, 4, Some(0))), Vec::<u8>::new());
    assert_eq!(get_data_from_accessor(&[1, 2, 3, 4, 5], layout(3, 1, 7, 0, Some(0))), Vec::<u8>::new());
    assert!(layout(0, 0, 5, 4, Some(4)).fits(20));
    assert!(!layout(usize::MAX, 1, 0, 0, None).fits(usize::MAX));
    assert!(!layout(0, 0, usize::MAX, 2, None).fits(usize::MAX));
    assert!(!layout(1, 0, usize::MAX, 1, None).fits(usize::MAX));
    assert!(layout(0, 0, usize::MAX, 1, None).fits(usize::MAX));
    assert!(layout(0, 0, 0, 0, None).fits(0));
}

#[test]
fn content_can_be_packed_up_to_the_length_that_four_bytes_state() {
    assert!(can_pack(0));
    assert!(can_pack(1));
    assert!(can_pack(u32::MAX as usize));
    assert!(!can_pack(u32::MAX as usize + 1));
    assert!(!can_pack(usize::MAX));
    assert_eq!(MAX_CONTENT_LENGTH, 4_294_967_295);
}

#[test]
fn content_that_outruns_its_stated_length_is_refused() {
    // States no content, holds one literal.
    assert_eq!(unpack(&[0, 0, 0, 0, 0x10, 0x41], LIMIT), Err(CodecError::Malformed));
    // States two bytes of content, holds three literals.
    assert_eq!(unpack(&[2, 0, 0, 0, 0x30, b'a', b'b', b'c'], LIMIT), Err(CodecError::Malformed));
    // States one byte, holds a literal and a match of four bytes.
    assert_eq!(unpack(&[1, 0, 0, 0, 0x10, b'a', 1, 0, 0x00], LIMIT), Err(CodecError::Malformed));
    // A packed file whose stated length is made smaller.
    let content: Vec<u8> = (0..200u32).map(|i| (i % 7) as u8).collect();
    let mut packed = pack(&content).unwrap();
    packed[0] = 100;
    assert_eq!(unpack(&packed, LIMIT), Err(CodecError::Malformed));
    packed[0] = 0;
    assert_eq!(unpack(&packed, LIMIT), Err(CodecError::Malformed));
    // Long literals and a long match that outrun a short stated length.
    let mut long = vec![5, 0, 0, 0, 0xf0, 50];
    long.extend(std::iter::repeat(b'x').take(65));
    assert_eq!(unpack(&long, LIMIT), Err(CodecError::Malformed));
    let mut matched = vec![8, 0, 0, 0, 0x4f, b'a', b'b', b'c', b'd', 4, 0, 200];
    assert_eq!(unpack(&matched, LIMIT), Err(CodecError::Malformed));
    matched.push(0);
    assert_eq!(unpack(&matched, LIMIT), Err(CodecError::Malformed));
}

#[test]
fn every_prefix_and_every_changed_byte_of_a_packed_file_is_taken_without_failure() {
    let content: Vec<u8> = (0..600u32).map(|i| ((i * i) % 13) as u8).collect();
    let packed = pack(&content).unwrap();
    for length in 0..packed.len() {
        assert!(unpack(&packed[..length], LIMIT).is_err());
    }
    for position in 0..packed.len() {
        for value in [0u8, 1, 0x0f, 0x10, 0xf0, 0xff] {
            let mut changed = packed.clone();
            changed[position] = value;
            let stated = stated_length(&changed).unwrap();
            match unpack(&changed, LIMIT) {
                Ok(bytes) => assert_eq!(bytes.len() as u32, stated),
                Err(CodecError::TooLong) => assert!(stated as usize > LIMIT),
                Err(error) => {
                    assert_eq!(error, CodecError::Malformed);
                    assert!(stated as usize <= LIMIT);
                }
            }
        }
    }
}

#[test]
fn runs_of_the_value_255_are_measured() {
    assert_eq!(MAX_LENGTH_RUN, 16_843_008);
    assert!(check_length_runs(&[]));
    assert!(check_length_runs(&[0xff, 0xff, 0, 0xff]));
    let mut bytes = vec![1u8, 0, 0, 0, 0xf0];
    bytes.extend(std::iter::repeat(0xffu8).take(MAX_LENGTH_RUN));
    assert!(check_length_runs(&bytes));
    assert_eq!(unpack(&bytes, LIMIT), Err(CodecError::Malformed));
    bytes.push(0xff);
    assert!(!check_length_runs(&bytes));
    assert_eq!(unpack(&bytes, LIMIT), Err(CodecError::Overlong));
    bytes.push(0);
    assert_eq!(unpack(&bytes, LIMIT), Err(CodecError::Overlong));
    let split = bytes.len() / 2;
    bytes[split] = 0xfe;
    assert!(check_length_runs(&bytes));
    assert_eq!(unpack(&bytes, LIMIT), Err(CodecError::Malformed));
}

#[test]
fn content_beyond_the_limit_of_the_caller_is_refused_unread() {
    assert_eq!(unpack(&[0xff, 0xff, 0xff, 0xff, 0], LIMIT), Err(CodecError::TooLong));
    assert_eq!(unpack(&[0xff, 0xff, 0xff, 0xff], 0), Err(CodecError::TooLong));
    let content = b"ten bytes!".to_vec();
    let packed = pack(&content).unwrap();
    assert_eq!(unpack(&packed, 9), Err(CodecError::TooLong));
    assert_eq!(unpack(&packed, 0), Err(CodecError::TooLong));
    assert_eq!(unpack(&packed, 10), Ok(content.clone()));
    assert_eq!(unpack(&packed, usize::MAX), Ok(content));
    // Fewer than four bytes state no length.
    assert_eq!(unpack(&[0xff, 0xff, 0xff], 0), Err(CodecError::Malformed));
    assert_eq!(unpack(&pack(&[]).unwrap(), 0), Ok(vec![]));
}
