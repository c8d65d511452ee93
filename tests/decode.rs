use uc_explorer::cursor::ByteCursor;
use uc_explorer::format::{AddressedWord, ControlWord, FormatError, PicoStoreEntry};
use uc_explorer::Microcode;

fn head(version: u16) -> Vec<u8> {
    vec![1, 5, 2, (version & 0xff) as u8, (version >> 8) as u8, 3, 0]
}

fn empty_mem(tag: u8) -> Vec<u8> {
    vec![tag, 0, 0]
}

fn empty_type_map() -> Vec<u8> {
    vec![7, 0, 0, 0, 0, 0, 0]
}

fn minimal(version: u16) -> Vec<u8> {
    let mut f = head(version);
    f.extend(empty_mem(4));
    f.extend(empty_mem(5));
    f.extend(empty_mem(6));
    f.extend(empty_type_map());
    f.push(8);
    f
}

fn decode(bytes: &[u8]) -> Result<Microcode, FormatError> {
    Microcode::decode("test.mic", bytes)
}

fn decode_err(bytes: &[u8]) -> FormatError {
    match decode(bytes) {
        Ok(_) => panic!("decoded a malformed dump"),
        Err(e) => e,
    }
}

fn pico_file(entries: usize, sentinel: u16, last_tag: u8) -> Vec<u8> {
    let mut f = head(1);
    f.extend(empty_mem(4));
    f.extend(empty_mem(5));
    f.extend(empty_mem(6));
    f.extend(empty_type_map());
    f.push(10);
    for i in 0..entries {
        let a = i as u16;
        f.extend([(a & 0xff) as u8, (a >> 8) as u8, 0x78, 0x56, 0x34, 0x12]);
    }
    f.extend([(sentinel & 0xff) as u8, (sentinel >> 8) as u8, last_tag]);
    f
}

#[test]
fn minimal_file_decodes_empty() {
    for version in [0u16, 1, 0x1234, 0xffff] {
        let m = decode(&minimal(version)).unwrap();
        assert_eq!(m.version(), version);
        assert!(m.comment().is_empty());
        assert!(m.a_mem().is_empty());
        assert!(m.b_mem().is_empty());
        assert!(m.c_mem().is_empty());
        assert!(m.type_map().is_empty());
        assert!(m.pico_store().is_empty());
        assert_eq!(m.source_path(), "test.mic");
    }
}

#[test]
fn comment_is_kept() {
    let mut f = vec![1, 5, 2, 7, 0, 3, 5];
    f.extend(b"hello");
    f.extend(empty_mem(4));
    f.extend(empty_mem(5));
    f.extend(empty_mem(6));
    f.extend(empty_type_map());
    f.push(8);
    let m = decode(&f).unwrap();
    assert_eq!(m.comment().as_slice(), b"hello");
    assert_eq!(m.version(), 7);
}

#[test]
fn zero_run_ends_each_memory_section() {
    // A zero run length ends the section: the next byte is already the next tag.
    let m = decode(&minimal(3)).unwrap();
    assert_eq!(m.a_mem().len(), 0);
    assert_eq!(m.b_mem().len(), 0);
    assert_eq!(m.c_mem().len(), 0);
}

#[test]
fn wrong_tag_names_its_section() {
    let cases: [(usize, FormatError); 9] = [
        (0, FormatError::InvalidHeader),
        (1, FormatError::InvalidHeader),
        (2, FormatError::InvalidVersion),
        (5, FormatError::InvalidComment),
        (7, FormatError::InvalidMemorySection),
        (10, FormatError::InvalidMemorySection),
        (13, FormatError::InvalidControlMemory),
        (16, FormatError::InvalidTypeMap),
        (23, FormatError::InvalidPicoStore),
    ];
    for (index, expected) in cases {
        let mut f = minimal(1);
        f[index] = 9;
        assert_eq!(decode_err(&f), expected, "byte {}", index);
    }
}

#[test]
fn type_map_padding_must_be_zero() {
    let mut f = minimal(1);
    f[19] = 1;
    assert_eq!(decode_err(&f), FormatError::InvalidTypeMap);
    let mut g = minimal(1);
    g[21] = 1;
    assert_eq!(decode_err(&g), FormatError::InvalidTypeMap);
}

#[test]
fn type_map_entries_in_order() {
    let mut f = head(1);
    f.extend(empty_mem(4));
    f.extend(empty_mem(5));
    f.extend(empty_mem(6));
    f.extend([7, 3, 0, 0, 0, 9, 8, 7, 0, 0, 8]);
    let m = decode(&f).unwrap();
    assert_eq!(m.type_map().as_slice(), &[9u8, 8, 7]);
}

#[test]
fn truncated_input_is_end_of_input() {
    let f = minimal(1);
    for cut in 0..f.len() {
        assert_eq!(decode_err(&f[..cut]), FormatError::UnexpectedEndOfInput, "cut at {}", cut);
    }
}

#[test]
fn a_mem_run_addresses_follow_start() {
    let mut f = head(1);
    f.extend([4, 2, 0, 0x10, 0]);
    f.extend([1, 2, 3, 4, 5]);
    f.extend([0xff, 0, 0, 0, 0x80]);
    f.extend([0, 0]);
    f.extend(empty_mem(5));
    f.extend(empty_mem(6));
    f.extend(empty_type_map());
    f.push(8);
    let m = decode(&f).unwrap();
    assert_eq!(
        m.a_mem().as_slice(),
        &[
            AddressedWord { address: 0x10, payload: 0x05_0403_0201 },
            AddressedWord { address: 0x11, payload: 0x80_0000_00ff },
        ]
    );
}

#[test]
fn runs_concatenate_in_encounter_order() {
    let mut f = head(1);
    f.extend(empty_mem(4));
    // B memory: a run at 0x20, then one going backwards to 0x05, then one overlapping 0x20.
    f.extend([5, 1, 0, 0x20, 0, 1, 0, 0, 0, 0]);
    f.extend([2, 0, 0x05, 0, 2, 0, 0, 0, 0, 3, 0, 0, 0, 0]);
    f.extend([1, 0, 0x20, 0, 4, 0, 0, 0, 0]);
    f.extend([0, 0]);
    f.extend(empty_mem(6));
    f.extend(empty_type_map());
    f.push(8);
    let m = decode(&f).unwrap();
    let got: Vec<(u16, u64)> = m.b_mem().iter().map(|w| (w.address, w.payload)).collect();
    assert_eq!(got, vec![(0x20, 1), (0x05, 2), (0x06, 3), (0x20, 4)]);
}

#[test]
fn run_addresses_wrap_at_sixteen_bits() {
    let mut f = head(1);
    f.extend([4, 2, 0, 0xff, 0xff, 1, 0, 0, 0, 0, 2, 0, 0, 0, 0, 0, 0]);
    f.extend(empty_mem(5));
    f.extend(empty_mem(6));
    f.extend(empty_type_map());
    f.push(8);
    let m = decode(&f).unwrap();
    assert_eq!(m.a_mem()[0].address, 0xffff);
    assert_eq!(m.a_mem()[1].address, 0);
}

#[test]
fn control_words_skip_their_trailers() {
    let mut f = head(1);
    f.extend(empty_mem(4));
    f.extend(empty_mem(5));
    f.extend([6, 2, 0, 0o100, 0]);
    f.extend([1, 2, 3, 4, 5, 6, 7, 8, 9, 10, 11, 12, 13, 14]);
    f.extend([0x33, 0x44, 0]);
    f.extend([0xff, 0xff, 0xff, 0xff, 0xff, 0xff, 0xff, 0xff, 0xff, 0xff, 0xff, 0xff, 0xff, 0xff]);
    f.push(0);
    f.extend([0, 0]);
    f.extend(empty_type_map());
    f.push(8);
    let m = decode(&f).unwrap();
    assert_eq!(
        m.c_mem().as_slice(),
        &[
            ControlWord { address: 0o100, low: 0x0807_0605_0403_0201, high: 0x0e0d_0c0b_0a09 },
            ControlWord { address: 0o101, low: u64::MAX, high: 0xffff_ffff_ffff },
        ]
    );
}

#[test]
fn unterminated_trailer_is_end_of_input() {
    let mut f = head(1);
    f.extend(empty_mem(4));
    f.extend(empty_mem(5));
    f.extend([6, 1, 0, 0, 0]);
    f.extend([0; 14]);
    f.extend([1, 2, 3]);
    assert_eq!(decode_err(&f), FormatError::UnexpectedEndOfInput);
}

#[test]
fn pico_store_with_255_entries_decodes() {
    let m = decode(&pico_file(255, 0xffff, 8)).unwrap();
    assert_eq!(m.pico_store().len(), 255);
    assert_eq!(m.pico_store()[0], PicoStoreEntry { address: 0, data: 0x1234_5678 });
    assert_eq!(m.pico_store()[254], PicoStoreEntry { address: 254, data: 0x1234_5678 });
}

#[test]
fn pico_store_bad_sentinel() {
    assert_eq!(decode_err(&pico_file(255, 0xfffe, 8)), FormatError::InvalidPicoStoreTerminator);
}

#[test]
fn pico_store_bad_trailing_tag() {
    assert_eq!(decode_err(&pico_file(255, 0xffff, 7)), FormatError::InvalidPicoStoreEof);
}

#[test]
fn pico_store_too_many_entries() {
    assert_eq!(decode_err(&pico_file(256, 0xffff, 8)), FormatError::InvalidPicoStoreTerminator);
}

#[test]
fn pico_store_too_few_entries() {
    // The missing entries are taken from the sentinel and beyond, so the input runs out.
    assert_eq!(decode_err(&pico_file(254, 0xffff, 8)), FormatError::UnexpectedEndOfInput);
}

#[test]
fn cursor_reads_little_endian() {
    let data = [0x01u8, 0x02, 0x03, 0x04, 0x05, 0x06, 0x07];
    let mut c = ByteCursor::new(&data);
    assert_eq!(c.read_u8(), Ok(1));
    assert_eq!(c.read_u16_le(), Ok(0x0302));
    assert_eq!(c.read_u32_le(), Ok(0x0706_0504));
    assert_eq!(c.pos(), 7);
    assert_eq!(c.remaining(), 0);
    assert_eq!(c.read_u8(), Err(FormatError::UnexpectedEndOfInput));
}

#[test]
fn cursor_reads_wide_integers() {
    let data: Vec<u8> = (1..=14).collect();
    let mut c = ByteCursor::new(&data);
    assert_eq!(c.read_uint_le(14), Ok(0x0e0d_0c0b_0a09_0807_0605_0403_0201));
    let mut d = ByteCursor::new(&data);
    assert_eq!(d.read_u64_le(5), Ok(0x05_0403_0201));
    assert_eq!(d.read_uint_le(10), Err(FormatError::UnexpectedEndOfInput));
}
