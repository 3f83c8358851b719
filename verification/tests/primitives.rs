use otdrs::crc16::checksums;
use otdrs::parser::{
    block_header, checksum_block, checksum_verdict, compare_checksums, data_points_at_scale_factor,
    data_points_block, find_block, fixed_length_str, get_ascii_str, key_event, key_events_block,
    landmark, last_key_event, le_i16, le_i32, le_u16, le_u32, link_parameters_block,
    map_block_info, matching_checksum, null_terminated_chunk, null_terminated_str,
    proprietary_block, str_eq, take, ParseError, ParseErrorKind,
};
use otdrs::types::{
    BlockInfo, ChecksumStatus, ChecksumStrategy, ChecksumValidationResult, DataPointsAtScaleFactor,
    MapBlock, ProprietaryBlock, SORFile,
};
use otdrs::{le_integer, WriteError};

#[test]
fn test_null_terminated_chunk() {
    let test_str = "abcdef\0";
    let res = null_terminated_chunk(test_str.as_bytes());
    let data = res.unwrap();
    assert_eq!(data.0, "".as_bytes()); // make sure we've consumed the null
    assert_eq!(data.1, "abcdef".as_bytes());
}

#[test]
#[should_panic]
fn test_unicode_handling() {
    let test_str = "âš";
    let res = get_ascii_str(test_str.as_bytes());
    res.unwrap();
}

#[test]
fn test_ascii_handling() {
    let test_str = "ascii";
    let res = get_ascii_str(test_str.as_bytes());
    let data = res.unwrap();
    assert_eq!(data, test_str);
}

#[test]
fn unicode_is_refused_as_non_ascii() {
    assert_eq!(get_ascii_str("âš".as_bytes()).map_err(|e| e.kind), Err(ParseErrorKind::NonAsciiEncoding));
}

#[test]
fn string_ends_at_the_first_zero_byte() {
    assert_eq!(get_ascii_str(b"ab\0cd"), Ok("ab"));
    assert_eq!(get_ascii_str(b"\0\0"), Ok(""));
    assert_eq!(get_ascii_str(b""), Ok(""));
    // what follows the zero byte is not looked at
    assert_eq!(get_ascii_str(b"ab\0\xff"), Ok("ab"));
    assert_eq!(get_ascii_str(b"a\xffb\0").map_err(|e| e.kind), Err(ParseErrorKind::NonAsciiEncoding));
}

#[test]
fn null_terminated_string_is_read() {
    assert_eq!(null_terminated_str(b"abc\0rest"), Ok((&b"rest"[..], "abc")));
    assert_eq!(null_terminated_str(b"\0"), Ok((&b""[..], "")));
    assert_eq!(null_terminated_str(b"abc").map_err(|e| e.kind), Err(ParseErrorKind::UnterminatedString));
    assert_eq!(null_terminated_str(b"").map_err(|e| e.kind), Err(ParseErrorKind::UnterminatedString));
    assert_eq!(null_terminated_str(b"a\x80c\0").map_err(|e| e.kind), Err(ParseErrorKind::NonAsciiEncoding));
    assert_eq!(null_terminated_chunk(b"abc").map_err(|e| e.kind), Err(ParseErrorKind::UnterminatedString));
}

#[test]
fn fixed_length_string_is_read() {
    assert_eq!(fixed_length_str(b"ENrest", 2), Ok((&b"rest"[..], "EN")));
    assert_eq!(fixed_length_str(b"E\0rest", 2), Ok((&b"rest"[..], "E")));
    assert_eq!(fixed_length_str(b"\0\0", 2), Ok((&b""[..], "")));
    assert_eq!(fixed_length_str(b"abc", 0), Ok((&b"abc"[..], "")));
    assert_eq!(fixed_length_str(b"E", 2).map_err(|e| e.kind), Err(ParseErrorKind::Truncated));
    assert_eq!(fixed_length_str(b"\xc3\xa9", 2).map_err(|e| e.kind), Err(ParseErrorKind::NonAsciiEncoding));
}

#[test]
fn bytes_are_taken() {
    assert_eq!(take(b"abcdef", 2), Ok((&b"cdef"[..], &b"ab"[..])));
    assert_eq!(take(b"ab", 2), Ok((&b""[..], &b"ab"[..])));
    assert_eq!(take(b"ab", 3).map_err(|e| e.kind), Err(ParseErrorKind::Truncated));
}

#[test]
fn integers_are_read_least_significant_byte_first() {
    assert_eq!(le_u16(&[0x34, 0x12, 9]), Ok((&[9u8][..], 0x1234)));
    assert_eq!(le_u16(&[0xff, 0xff]), Ok((&[][..], 65535)));
    assert_eq!(le_i16(&[0xff, 0xff]), Ok((&[][..], -1)));
    assert_eq!(le_i16(&[0x00, 0x80]), Ok((&[][..], -32768)));
    assert_eq!(le_i16(&[0xff, 0x7f]), Ok((&[][..], 32767)));
    assert_eq!(le_i16(&[0x29, 0xff]), Ok((&[][..], -215)));
    assert_eq!(le_u32(&[0x78, 0x56, 0x34, 0x12]), Ok((&[][..], 0x12345678)));
    assert_eq!(le_u32(&[0xff, 0xff, 0xff, 0xff]), Ok((&[][..], 4294967295)));
    assert_eq!(le_i32(&[0xff, 0xff, 0xff, 0xff, 7]), Ok((&[7u8][..], -1)));
    assert_eq!(le_i32(&[0x00, 0x00, 0x00, 0x80]), Ok((&[][..], -2147483648)));
    assert_eq!(le_i32(&[0x9d, 0xf7, 0xff, 0xff]), Ok((&[][..], -2147)));
    assert_eq!(le_u16(&[1]).map_err(|e| e.kind), Err(ParseErrorKind::Truncated));
    assert_eq!(le_i16(&[]).map_err(|e| e.kind), Err(ParseErrorKind::Truncated));
    assert_eq!(le_u32(&[1, 2, 3]).map_err(|e| e.kind), Err(ParseErrorKind::Truncated));
    assert_eq!(le_i32(&[1, 2, 3]).map_err(|e| e.kind), Err(ParseErrorKind::Truncated));
}

#[test]
fn integers_are_written_least_significant_byte_first() {
    let mut b = vec![9u8];
    le_integer(&mut b, 0x1234u16);
    le_integer(&mut b, -215i16);
    le_integer(&mut b, -2147i32);
    le_integer(&mut b, 1569835674u32);
    le_integer(&mut b, i32::MIN);
    le_integer(&mut b, u16::MAX);
    assert_eq!(
        b,
        vec![
            9, 0x34, 0x12, 0x29, 0xff, 0x9d, 0xf7, 0xff, 0xff, 0x9a, 0xca, 0x91, 0x5d, 0, 0, 0,
            0x80, 0xff, 0xff
        ]
    );
}

#[test]
fn written_integers_are_read_back() {
    for x in [i16::MIN, -215, -1, 0, 1, 374, i16::MAX] {
        let mut b = Vec::new();
        le_integer(&mut b, x);
        assert_eq!(le_i16(&b), Ok((&[][..], x)));
    }
    for x in [i32::MIN, -46671, -1, 0, 182809, i32::MAX] {
        let mut b = Vec::new();
        le_integer(&mut b, x);
        assert_eq!(le_i32(&b), Ok((&[][..], x)));
    }
    for x in [0u32, 1593101318, u32::MAX] {
        let mut b = Vec::new();
        le_integer(&mut b, x);
        assert_eq!(le_u32(&b), Ok((&[][..], x)));
    }
}

#[test]
fn null_terminated_string_is_written() {
    let mut b = vec![1u8];
    assert_eq!(otdrs::null_terminated_str(&mut b, "C001 "), Ok(()));
    assert_eq!(b, b"\x01C001 \0".to_vec());
    assert_eq!(otdrs::null_terminated_str(&mut b, ""), Ok(()));
    assert_eq!(b, b"\x01C001 \0\0".to_vec());
    assert_eq!(otdrs::null_terminated_str(&mut b, "caf\u{e9}"), Err(WriteError::Utf8EncodingError));
    assert_eq!(b, b"\x01C001 \0\0".to_vec());
}

#[test]
fn fixed_length_string_is_written() {
    let mut b = vec![1u8];
    assert_eq!(otdrs::fixed_length_str(&mut b, "EN", 2), Ok(()));
    assert_eq!(otdrs::fixed_length_str(&mut b, "2P", 6), Ok(()));
    assert_eq!(otdrs::fixed_length_str(&mut b, "", 1), Ok(()));
    assert_eq!(b, b"\x01EN2P\0\0\0\0\0".to_vec());
    // too wide
    assert_eq!(
        otdrs::fixed_length_str(&mut b, "ENG", 2),
        Err(WriteError::FixedLengthStringMismatchError)
    );
    // too wide counts before the encoding
    assert_eq!(
        otdrs::fixed_length_str(&mut b, "\u{e9}\u{e9}", 2),
        Err(WriteError::FixedLengthStringMismatchError)
    );
    assert_eq!(otdrs::fixed_length_str(&mut b, "\u{e9}", 2), Err(WriteError::Utf8EncodingError));
    assert_eq!(b, b"\x01EN2P\0\0\0\0\0".to_vec());
}

#[test]
fn padded_fixed_length_string_is_read_back() {
    let mut b = Vec::new();
    otdrs::fixed_length_str(&mut b, "1F", 6).unwrap();
    assert_eq!(b.len(), 6);
    assert_eq!(fixed_length_str(&b, 6), Ok((&[][..], "1F")));
}

#[test]
fn block_name_is_read() {
    assert_eq!(block_header(b"Map\0rest", "Map"), Ok((&b"rest"[..], ())));
    assert_eq!(block_header(b"Map", "Map").map_err(|e| e.kind), Err(ParseErrorKind::BadHeader));
    assert_eq!(block_header(b"Mapx", "Map").map_err(|e| e.kind), Err(ParseErrorKind::BadHeader));
    assert_eq!(block_header(b"Mop\0", "Map").map_err(|e| e.kind), Err(ParseErrorKind::BadHeader));
    assert_eq!(block_header(b"", "Map").map_err(|e| e.kind), Err(ParseErrorKind::BadHeader));
}

#[test]
fn strings_are_compared() {
    assert!(str_eq("Cksum", "Cksum"));
    assert!(!str_eq("Cksum", "Cksun"));
    assert!(!str_eq("Cksum", "Cksu"));
    assert!(str_eq("", ""));
}

#[test]
fn map_entry_is_read() {
    let bytes = b"DataPts\0\xc8\x00\x74\xea\x00\x00tail";
    assert_eq!(
        map_block_info(bytes),
        Ok((
            &b"tail"[..],
            BlockInfo { identifier: "DataPts".to_owned(), revision_number: 200, size: 60020 }
        ))
    );
    assert_eq!(map_block_info(b"DataPts\0\xc8\x00\x74").map_err(|e| e.kind), Err(ParseErrorKind::Truncated));
}

#[test]
fn entries_are_found_by_name() {
    let entry = |name: &str| BlockInfo { identifier: name.to_owned(), revision_number: 1, size: 0 };
    let infos = vec![entry("A"), entry("B"), entry("A")];
    assert_eq!(find_block(&infos, "A"), 0);
    assert_eq!(find_block(&infos, "B"), 1);
    assert_eq!(find_block(&infos, "C"), 3);
}

fn one_event(number: i16) -> Vec<u8> {
    let mut v = Vec::new();
    le_integer(&mut v, number);
    le_integer(&mut v, 532i32);
    le_integer(&mut v, 0i16);
    le_integer(&mut v, 374i16);
    le_integer(&mut v, 0i32);
    v.extend_from_slice(b"0F9999LS");
    for _ in 0..5 {
        le_integer(&mut v, 0i32);
    }
    v.extend_from_slice(b" \0");
    v
}

#[test]
fn key_event_is_read() {
    let mut bytes = one_event(2);
    assert_eq!(bytes.len(), 44);
    bytes.push(77);
    let (rest, event) = key_event(&bytes).unwrap();
    assert_eq!(rest, &[77u8][..]);
    assert_eq!(event.event_number, 2);
    assert_eq!(event.event_propogation_time, 532);
    assert_eq!(event.event_loss, 374);
    assert_eq!(event.event_code, "0F9999");
    assert_eq!(event.loss_measurement_technique, "LS");
    assert_eq!(event.comment, " ");
    assert_eq!(key_event(&bytes[..43]).err().map(|e| e.kind), Some(ParseErrorKind::UnterminatedString));
    assert_eq!(key_event(&bytes[..20]).err().map(|e| e.kind), Some(ParseErrorKind::Truncated));
}

#[test]
fn last_key_event_has_six_fields_more() {
    let mut bytes = one_event(3);
    le_integer(&mut bytes, 576i32);
    le_integer(&mut bytes, 0i32);
    le_integer(&mut bytes, 182809i32);
    le_integer(&mut bytes, 24516u16);
    le_integer(&mut bytes, 1i32);
    le_integer(&mut bytes, 182810i32);
    let (rest, event) = last_key_event(&bytes).unwrap();
    assert_eq!(rest.len(), 0);
    assert_eq!(event.event_number, 3);
    assert_eq!(event.end_to_end_loss, 576);
    assert_eq!(event.end_to_end_marker_position_2, 182809);
    assert_eq!(event.optical_return_loss, 24516);
    assert_eq!(event.optical_return_loss_marker_position_1, 1);
    assert_eq!(event.optical_return_loss_marker_position_2, 182810);
    assert_eq!(last_key_event(&bytes[..65]).err().map(|e| e.kind), Some(ParseErrorKind::Truncated));
}

#[test]
fn key_events_block_without_events_is_refused() {
    assert_eq!(
        key_events_block(b"KeyEvents\0\x00\x00").err().map(|e| e.kind),
        Some(ParseErrorKind::CountUnderflow)
    );
    assert_eq!(
        key_events_block(b"KeyEvents\0\xff\xff").err().map(|e| e.kind),
        Some(ParseErrorKind::CountUnderflow)
    );
    // one event is the last event, which is not there
    assert_eq!(key_events_block(b"KeyEvents\0\x01\x00").err().map(|e| e.kind), Some(ParseErrorKind::Truncated));
    assert_eq!(key_events_block(b"KeyEvent\0\x01\x00").err().map(|e| e.kind), Some(ParseErrorKind::BadHeader));
}

#[test]
fn samples_are_read_in_the_declared_number() {
    let bytes = [3u8, 0, 0, 0, 0xe8, 3, 1, 0, 2, 0, 0xff, 0xff, 5];
    assert_eq!(
        data_points_at_scale_factor(&bytes),
        Ok((
            &[5u8][..],
            DataPointsAtScaleFactor { n_points: 3, scale_factor: 1000, data: vec![1, 2, 65535] }
        ))
    );
    assert_eq!(data_points_at_scale_factor(&bytes[..11]).err().map(|e| e.kind), Some(ParseErrorKind::Truncated));
    let negative = [0xffu8, 0xff, 0xff, 0xff, 0xe8, 3];
    assert_eq!(data_points_at_scale_factor(&negative).err().map(|e| e.kind), Some(ParseErrorKind::CountUnderflow));
}

#[test]
fn data_points_block_holds_one_group_for_each_scale_factor() {
    let mut bytes = b"DataPts\0".to_vec();
    le_integer(&mut bytes, 3i32);
    le_integer(&mut bytes, 2i16);
    le_integer(&mut bytes, 1i32);
    le_integer(&mut bytes, 1000i16);
    le_integer(&mut bytes, 11u16);
    le_integer(&mut bytes, 2i32);
    le_integer(&mut bytes, 500i16);
    le_integer(&mut bytes, 22u16);
    le_integer(&mut bytes, 33u16);
    let (rest, dp) = data_points_block(&bytes).unwrap();
    assert_eq!(rest.len(), 0);
    assert_eq!(dp.number_of_data_points, 3);
    assert_eq!(dp.scale_factors.len(), 2);
    assert_eq!(dp.scale_factors[1].scale_factor, 500);
    assert_eq!(dp.scale_factors[1].data, vec![22, 33]);
}

#[test]
fn checksum_block_is_read() {
    let (rest, block) = checksum_block(b"Cksum\0\xb1\x29").unwrap();
    assert_eq!(rest.len(), 0);
    assert_eq!(block.checksum, 0x29b1);
    assert_eq!(checksum_block(b"Cksum\0\xff\xff").unwrap().1.checksum, -1);
    assert_eq!(checksum_block(b"Cksum\0\xff").err().map(|e| e.kind), Some(ParseErrorKind::Truncated));
}

#[test]
fn proprietary_block_keeps_its_bytes() {
    assert_eq!(
        proprietary_block(b"FodParams\0\x01\x00\xff"),
        Ok((
            &[][..],
            ProprietaryBlock { header: "FodParams".to_owned(), data: vec![1, 0, 255] }
        ))
    );
    assert_eq!(proprietary_block(b"FodParams").err().map(|e| e.kind), Some(ParseErrorKind::UnterminatedString));
}

#[test]
fn landmark_is_read() {
    let mut bytes = b"LnkParams\0".to_vec();
    le_integer(&mut bytes, 1i16);
    bytes.extend_from_slice(b"MH");
    le_integer(&mut bytes, 1000i32);
    le_integer(&mut bytes, 2i16);
    le_integer(&mut bytes, -5i32);
    le_integer(&mut bytes, 6i32);
    le_integer(&mut bytes, 7i16);
    le_integer(&mut bytes, 8i32);
    le_integer(&mut bytes, 9i32);
    bytes.extend_from_slice(b"mt");
    le_integer(&mut bytes, 10i16);
    bytes.extend_from_slice(b"manhole\0");
    let (rest, mark) = landmark(&bytes).unwrap();
    assert_eq!(rest.len(), 0);
    assert_eq!(mark.landmark_code, "MH");
    assert_eq!(mark.related_event_number, 2);
    assert_eq!(mark.gps_longitude, -5);
    assert_eq!(mark.units_of_sheath_marks_leaving_landmark, "mt");
    assert_eq!(mark.comment, "manhole");
    let mut block = b"LnkParams\0\x01\x00".to_vec();
    block.extend_from_slice(&bytes);
    let (_, link) = link_parameters_block(&block).unwrap();
    assert_eq!(link.number_of_landmarks, 1);
    assert_eq!(link.landmarks, vec![mark]);
    assert_eq!(
        link_parameters_block(b"LnkParams\0\xff\xff").err().map(|e| e.kind),
        Some(ParseErrorKind::CountUnderflow)
    );
}

#[test]
fn check_values_of_the_digits() {
    assert_eq!(checksums(b"123456789"), (0x29b1, 0x2189));
    assert_eq!(checksums(b""), (0xffff, 0x0000));
}

#[test]
fn stored_value_is_compared_under_both_conventions() {
    assert_eq!(compare_checksums(b"123456789", 0x29b1), Some(0x29b1));
    assert_eq!(compare_checksums(b"123456789", 0x2189), Some(0x2189));
    assert_eq!(compare_checksums(b"123456789", 0x1234), None);
    assert_eq!(matching_checksum((1, 2), 1), Some(1));
    assert_eq!(matching_checksum((1, 2), 2), Some(2));
    assert_eq!(matching_checksum((1, 2), 3), None);
}

#[test]
fn first_matching_range_decides() {
    let valid = |matched: u16, by: ChecksumStrategy| ChecksumValidationResult {
        status: ChecksumStatus::Valid,
        stored: Some(7),
        matched: Some(matched),
        matched_by: Some(by),
    };
    assert_eq!(
        checksum_verdict(7, Some(7), Some(7), None),
        valid(7, ChecksumStrategy::PrecedingBytes)
    );
    assert_eq!(
        checksum_verdict(7, None, Some(7), Some(7)),
        valid(7, ChecksumStrategy::WholeFileChecksumZeroed)
    );
    assert_eq!(
        checksum_verdict(7, None, None, Some(7)),
        valid(7, ChecksumStrategy::WholeFileExcludingBlock)
    );
    assert_eq!(
        checksum_verdict(7, None, None, None),
        ChecksumValidationResult {
            status: ChecksumStatus::Mismatch,
            stored: Some(7),
            matched: None,
            matched_by: None
        }
    );
}

fn tiny_file(value: u16, size: i32) -> (Vec<u8>, SORFile) {
    let mut bytes = b"Map\0".to_vec();
    le_integer(&mut bytes, 100u16);
    le_integer(&mut bytes, 24i32);
    le_integer(&mut bytes, 2i16);
    bytes.extend_from_slice(b"Cksum\0");
    le_integer(&mut bytes, 200u16);
    le_integer(&mut bytes, size);
    bytes.extend_from_slice(b"Cksum\0");
    le_integer(&mut bytes, value);
    let sor = otdrs::parser::parse_file(&bytes).unwrap();
    (bytes, sor)
}

#[test]
fn checksum_over_the_file_with_the_value_zeroed_is_found() {
    let (mut zeroed, _) = tiny_file(0, 8);
    let value = checksums(&zeroed).0;
    let n = zeroed.len();
    zeroed[n - 2..].copy_from_slice(&value.to_le_bytes());
    let sor = otdrs::parser::parse_file(&zeroed).unwrap();
    let res = otdrs::parser::validate_checksum(&zeroed, &sor);
    assert_eq!(res.status, ChecksumStatus::Valid);
    assert_eq!(res.matched_by, Some(ChecksumStrategy::WholeFileChecksumZeroed));
    assert_eq!(res.stored, Some(value));
    assert_eq!(res.matched, Some(value));
}

#[test]
fn checksum_under_the_other_convention_is_found() {
    let (bytes, _) = tiny_file(0, 8);
    let value = checksums(&bytes[..24]).1;
    let (bytes, sor) = tiny_file(value, 8);
    let res = otdrs::parser::validate_checksum(&bytes, &sor);
    assert_eq!(res.status, ChecksumStatus::Valid);
    assert_eq!(res.matched_by, Some(ChecksumStrategy::PrecedingBytes));
    assert_eq!(res.matched, Some(value));
}

#[test]
fn checksum_over_the_file_without_the_block_is_found() {
    // a block after the checksum block
    let mut bytes = b"Map\0".to_vec();
    le_integer(&mut bytes, 100u16);
    le_integer(&mut bytes, 32i32);
    le_integer(&mut bytes, 3i16);
    bytes.extend_from_slice(b"Cksum\0");
    le_integer(&mut bytes, 200u16);
    le_integer(&mut bytes, 8i32);
    bytes.extend_from_slice(b"X\0");
    le_integer(&mut bytes, 200u16);
    le_integer(&mut bytes, 5i32);
    let mut without = bytes.clone();
    without.extend_from_slice(b"X\0abc");
    let value = checksums(&without).0;
    bytes.extend_from_slice(b"Cksum\0");
    bytes.extend_from_slice(&value.to_le_bytes());
    bytes.extend_from_slice(b"X\0abc");
    let sor = otdrs::parser::parse_file(&bytes).unwrap();
    let res = otdrs::parser::validate_checksum(&bytes, &sor);
    assert_eq!(res.status, ChecksumStatus::Valid);
    assert_eq!(res.matched_by, Some(ChecksumStrategy::WholeFileExcludingBlock));
    assert_eq!(res.matched, Some(value));
}

#[test]
fn checksum_block_that_cannot_be_located_is_an_error() {
    let (bytes, sor) = tiny_file(0, 8);
    let error = ChecksumValidationResult {
        status: ChecksumStatus::Error,
        stored: None,
        matched: None,
        matched_by: None,
    };
    let with_map = |map: MapBlock| SORFile { map, ..sor.clone() };
    let mut map = sor.map.clone();
    map.block_size = -1;
    assert_eq!(otdrs::parser::validate_checksum(&bytes, &with_map(map)), error);
    let mut map = sor.map.clone();
    map.block_info[0].size = 7;
    assert_eq!(otdrs::parser::validate_checksum(&bytes, &with_map(map)), error);
    let mut map = sor.map.clone();
    map.block_info[0].size = -8;
    assert_eq!(otdrs::parser::validate_checksum(&bytes, &with_map(map)), error);
    let mut map = sor.map.clone();
    map.block_size = 25;
    assert_eq!(otdrs::parser::validate_checksum(&bytes, &with_map(map)), error);
    let mut map = sor.map.clone();
    map.block_info[0].identifier = "Other".to_owned();
    assert_eq!(otdrs::parser::validate_checksum(&bytes, &with_map(map)), error);
}

#[test]
fn errors_are_described() {
    assert_eq!(
        WriteError::MissingMandatoryBlock("GenParams".to_owned()).message(),
        "Missing mandatory block: GenParams"
    );
    assert_eq!(
        WriteError::MissingBlockInfo("X".to_owned()).message(),
        "BlockInfo block is missing for one of your blocks in the Map!: X"
    );
    assert_eq!(
        WriteError::FixedLengthStringMismatchError.message(),
        "Fixed-length string exceeds the length specified for the string"
    );
    assert_eq!(
        WriteError::Utf8EncodingError.message(),
        "A character in a string requires more than one byte to encode, which is not permitted in the standard."
    );
}

#[test]
fn file_that_fits_is_written_checked() {
    let (_, mut sor) = tiny_file(0, 8);
    assert!(sor.fits_format());
    assert_eq!(
        sor.checked_to_bytes(),
        Some(Err(WriteError::MissingMandatoryBlock("GenParams".to_owned())))
    );
    for k in 0..32761 {
        sor.proprietary_blocks.push(ProprietaryBlock { header: format!("P{}", k), data: vec![] });
    }
    assert!(!sor.fits_format());
    assert_eq!(sor.checked_to_bytes(), None);
}

#[test]
fn errors_say_where_decoding_stopped() {
    let truncated = ParseError { kind: ParseErrorKind::Truncated, remaining: 1 };
    assert_eq!(le_u16(&[7]), Err(truncated));
    assert_eq!(truncated.offset(10), 9);
    assert_eq!(truncated.offset(0), 0);
    // the string that is not ASCII begins four bytes before the end
    assert_eq!(
        null_terminated_str(b"a\x80c\0"),
        Err(ParseError { kind: ParseErrorKind::NonAsciiEncoding, remaining: 4 })
    );
    assert_eq!(
        fixed_length_str(b"\xc3\xa9rest", 2),
        Err(ParseError { kind: ParseErrorKind::NonAsciiEncoding, remaining: 6 })
    );
    // the count is read, then refused
    assert_eq!(
        key_events_block(b"KeyEvents\0\x00\x00abc"),
        Err(ParseError { kind: ParseErrorKind::CountUnderflow, remaining: 3 })
    );
    // the third sample is cut short
    let bytes = [3u8, 0, 0, 0, 0xe8, 3, 1, 0, 2, 0, 0xff];
    assert_eq!(
        data_points_at_scale_factor(&bytes),
        Err(ParseError { kind: ParseErrorKind::Truncated, remaining: 1 })
    );
}
