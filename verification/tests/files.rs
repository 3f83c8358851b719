use otdrs::parser::{
    map_block, parse_file, validate_checksum, ParseError, ParseErrorKind, BLOCK_ID_GENPARAMS,
};
use otdrs::types::{
    BlockInfo, ChecksumStatus, ChecksumStrategy, FixedParametersBlock, GeneralParametersBlock,
    KeyEvent, KeyEvents, LastKeyEvent, MapBlock, SORFile, SupplierParametersBlock,
};
use otdrs::WriteError;

// The sample files are put together here, byte by byte.

fn nts(v: &mut Vec<u8>, s: &str) {
    v.extend_from_slice(s.as_bytes());
    v.push(0);
}

fn raw(v: &mut Vec<u8>, s: &str) {
    v.extend_from_slice(s.as_bytes());
}

fn le16(v: &mut Vec<u8>, x: i32) {
    v.extend_from_slice(&(x as u16).to_le_bytes());
}

fn le32(v: &mut Vec<u8>, x: i64) {
    v.extend_from_slice(&(x as u32).to_le_bytes());
}

struct Trace {
    wavelength: i32,
    date: i64,
    averages: i64,
    averaging_time: i32,
    n_points: i64,
    events: usize,
}

fn general_parameters(t: &Trace) -> Vec<u8> {
    let mut v = Vec::new();
    nts(&mut v, "GenParams");
    raw(&mut v, "EN");
    nts(&mut v, "C001 ");
    nts(&mut v, "009");
    le16(&mut v, 652);
    le16(&mut v, t.wavelength);
    nts(&mut v, "CAB000 ");
    nts(&mut v, "CLS007 ");
    nts(&mut v, " ");
    raw(&mut v, "NC");
    le32(&mut v, 24641);
    le32(&mut v, 503);
    nts(&mut v, " ");
    nts(&mut v, " ");
    v
}

fn supplier_parameters() -> Vec<u8> {
    let mut v = Vec::new();
    nts(&mut v, "SupParams");
    nts(&mut v, "Noyes");
    nts(&mut v, "OFL280C-100");
    nts(&mut v, "2G14PT7552     ");
    nts(&mut v, "0.0.43 ");
    nts(&mut v, " ");
    nts(&mut v, "1.2.04b1011F ");
    nts(&mut v, "Last Calibration Date:  2019-03-25 ");
    v
}

fn fixed_parameters(t: &Trace) -> Vec<u8> {
    let mut v = Vec::new();
    nts(&mut v, "FxdParams");
    le32(&mut v, t.date);
    raw(&mut v, "mt");
    le16(&mut v, t.wavelength);
    le32(&mut v, -2147);
    le32(&mut v, -42);
    le16(&mut v, 1);
    le16(&mut v, 30);
    le32(&mut v, 100000);
    le32(&mut v, t.n_points);
    le32(&mut v, 146750);
    le16(&mut v, 802);
    le32(&mut v, t.averages);
    le16(&mut v, t.averaging_time);
    le32(&mut v, 300000);
    le32(&mut v, 6000);
    le32(&mut v, 2147);
    le16(&mut v, 30342);
    le16(&mut v, 1000);
    le16(&mut v, 0);
    le16(&mut v, 50);
    le16(&mut v, 65000);
    le16(&mut v, 3000);
    raw(&mut v, "ST");
    for _ in 0..4 {
        le32(&mut v, 0);
    }
    v
}

fn event(v: &mut Vec<u8>, number: i32, time: i64, attenuation: i32, loss: i32, reflectance: i64, code: &str) {
    le16(v, number);
    le32(v, time);
    le16(v, attenuation);
    le16(v, loss);
    le32(v, reflectance);
    raw(v, code);
    raw(v, "LS");
    for _ in 0..5 {
        le32(v, 0);
    }
    nts(v, " ");
}

fn key_events(t: &Trace) -> Vec<u8> {
    let mut v = Vec::new();
    nts(&mut v, "KeyEvents");
    le16(&mut v, t.events as i32);
    event(&mut v, 1, 0, 0, -215, -46671, "1F9999");
    event(&mut v, 2, 532, 0, 374, 0, "0F9999");
    for k in 3..t.events {
        event(&mut v, k as i32, 1000 * k as i64, 0, 10, 0, "0F9999");
    }
    event(&mut v, t.events as i32, 182802, 185, -950, -23027, "2E9999");
    le32(&mut v, 576);
    le32(&mut v, 0);
    le32(&mut v, 182809);
    le16(&mut v, 24516);
    le32(&mut v, 0);
    le32(&mut v, 182809);
    v
}

fn data_points(t: &Trace) -> Vec<u8> {
    let mut v = Vec::new();
    nts(&mut v, "DataPts");
    le32(&mut v, t.n_points);
    le16(&mut v, 1);
    le32(&mut v, t.n_points);
    le16(&mut v, 1000);
    for k in 0..t.n_points {
        le16(&mut v, ((k * 7 + 13) % 40000) as i32);
    }
    v
}

fn vendor(name: &str, size: usize) -> Vec<u8> {
    let mut v = Vec::new();
    nts(&mut v, name);
    let mut k = 0u32;
    while v.len() < size {
        v.push((k % 251) as u8);
        k += 3;
    }
    v
}

fn checksum() -> Vec<u8> {
    let mut v = Vec::new();
    nts(&mut v, "Cksum");
    le16(&mut v, 0x1234);
    v
}

fn assemble(blocks: &[(&str, Vec<u8>)]) -> Vec<u8> {
    let mut size = 12;
    for (name, _) in blocks {
        size += name.len() + 7;
    }
    let mut v = Vec::new();
    nts(&mut v, "Map");
    le16(&mut v, 200);
    le32(&mut v, size as i64);
    le16(&mut v, blocks.len() as i32 + 1);
    for (name, bytes) in blocks {
        nts(&mut v, name);
        le16(&mut v, 200);
        le32(&mut v, bytes.len() as i64);
    }
    for (_, bytes) in blocks {
        v.extend_from_slice(bytes);
    }
    v
}

fn file(t: &Trace) -> Vec<u8> {
    assemble(&[
        ("GenParams", general_parameters(t)),
        ("SupParams", supplier_parameters()),
        ("FxdParams", fixed_parameters(t)),
        ("FodParams", vendor("FodParams", 266)),
        ("KeyEvents", key_events(t)),
        ("Fod02Params", vendor("Fod02Params", 38)),
        ("Fod04Params", vendor("Fod04Params", 166)),
        ("Fod03Params", vendor("Fod03Params", 26)),
        ("DataPts", data_points(t)),
        ("Cksum", checksum()),
    ])
}

fn noyes() -> Vec<u8> {
    file(&Trace {
        wavelength: 1550,
        date: 1569835674,
        averages: 2704,
        averaging_time: 3000,
        n_points: 30000,
        events: 3,
    })
}

fn anritsu() -> Vec<u8> {
    file(&Trace {
        wavelength: 1310,
        date: 1592094230,
        averages: 15360,
        averaging_time: 30,
        n_points: 20001,
        events: 3,
    })
}

fn exfo() -> Vec<u8> {
    file(&Trace {
        wavelength: 1310,
        date: 1593101318,
        averages: 4563,
        averaging_time: 7,
        n_points: 25903,
        events: 9,
    })
}

fn test_sor_load() -> SORFile {
    parse_file(&exfo()).unwrap()
}

#[test]
fn test_gen_general_parameters() {
    let in_sor = test_sor_load();
    let bytes = in_sor.gen_general_parameters();
    assert_eq!(bytes.unwrap(), general_parameters(&Trace {
        wavelength: 1310,
        date: 0,
        averages: 0,
        averaging_time: 0,
        n_points: 0,
        events: 0,
    }));
}

#[test]
fn test_gen_supplier_parameters() {
    let in_sor = test_sor_load();
    let bytes = in_sor.gen_supplier_parameters();
    assert_eq!(bytes.unwrap(), supplier_parameters());
}

#[test]
fn test_gen_fixed_parameters() {
    let in_sor = test_sor_load();
    let bytes = in_sor.gen_fixed_parameters().unwrap();
    assert_eq!(bytes.len(), 92);
    assert_eq!(&bytes[10..14], &1593101318u32.to_le_bytes());
}

#[test]
fn test_gen_key_events() {
    let in_sor = test_sor_load();
    let bytes = in_sor.gen_key_events().unwrap();
    assert_eq!(bytes.len(), 10 + 2 + 8 * 44 + 66);
}

#[test]
fn test_roundtrip_sor() {
    let in_sor = test_sor_load();
    let bytes = in_sor.to_bytes().unwrap();
    let out_sor = parse_file(&bytes).unwrap();
    // We don't check the map directly, as it's regenerated on write.
    // However, the data content of all other blocks should be identical.
    assert_eq!(in_sor.general_parameters, out_sor.general_parameters);
    assert_eq!(in_sor.supplier_parameters, out_sor.supplier_parameters);
    assert_eq!(in_sor.fixed_parameters, out_sor.fixed_parameters);
    assert_eq!(in_sor.key_events, out_sor.key_events);
    assert_eq!(in_sor.link_parameters, out_sor.link_parameters);
    assert_eq!(in_sor.data_points, out_sor.data_points);
    assert_eq!(in_sor.proprietary_blocks, out_sor.proprietary_blocks);
}

#[test]
fn test_roundtrip_sor_checksums() {
    let in_sor = test_sor_load();
    let bytes = in_sor.to_bytes().unwrap();
    let out_sor = parse_file(&bytes).unwrap();
    assert_eq!(in_sor.general_parameters, out_sor.general_parameters);
    let checksum = validate_checksum(&bytes, &out_sor);
    assert_eq!(checksum.status, ChecksumStatus::Valid);
    assert_eq!(checksum.matched_by.unwrap(), ChecksumStrategy::PrecedingBytes);
}

#[test]
fn test_roundtrip_sor_with_modification() {
    let mut in_sor = test_sor_load();
    let new_cable_id = "MODIFIED CABLE ID".to_string();

    // Modify a value
    in_sor.general_parameters.as_mut().unwrap().cable_id = new_cable_id.clone();

    let bytes = in_sor.to_bytes().unwrap();
    let out_sor = parse_file(&bytes).unwrap();

    // Assert that the modified value is present in the re-parsed struct
    assert_eq!(out_sor.general_parameters.unwrap().cable_id, new_cable_id);
}

#[test]
fn modification_changes_nothing_else() {
    let mut in_sor = test_sor_load();
    in_sor.general_parameters.as_mut().unwrap().cable_id = "MODIFIED CABLE ID".to_string();
    let out_sor = parse_file(&in_sor.to_bytes().unwrap()).unwrap();
    assert_eq!(in_sor.general_parameters, out_sor.general_parameters);
    assert_eq!(in_sor.supplier_parameters, out_sor.supplier_parameters);
    assert_eq!(in_sor.fixed_parameters, out_sor.fixed_parameters);
    assert_eq!(in_sor.key_events, out_sor.key_events);
    assert_eq!(in_sor.data_points, out_sor.data_points);
    assert_eq!(in_sor.proprietary_blocks, out_sor.proprietary_blocks);
}

#[test]
fn test_write_file_with_missing_mandatory_block() {
    let mut sor = test_sor_load();
    sor.general_parameters = None;
    let result = sor.to_bytes();
    assert_eq!(
        result,
        Err(WriteError::MissingMandatoryBlock(BLOCK_ID_GENPARAMS.to_string()))
    );
}

#[test]
fn test_validate_checksum_valid_on_writer_output() {
    let data = exfo();
    let in_sor = parse_file(&data).unwrap();

    let bytes = in_sor.to_bytes().unwrap();
    let out_sor = parse_file(&bytes).unwrap();

    let res = validate_checksum(&bytes, &out_sor);
    assert_eq!(res.status, ChecksumStatus::Valid);
    assert_eq!(res.matched_by, Some(ChecksumStrategy::PrecedingBytes));
    assert_eq!(res.stored, res.matched);
}

#[test]
fn test_validate_checksum_mismatch_after_corruption() {
    let data = exfo();
    let in_sor = parse_file(&data).unwrap();

    let bytes = in_sor.to_bytes().unwrap();
    let out_sor = parse_file(&bytes).unwrap();

    let map = &out_sor.map;
    let map_len = map.block_size as usize;

    let mut corrupted = bytes.clone();
    // A byte among the samples: the file still parses and differs in its data.
    let corrupt_index = map_len + 1000;
    corrupted[corrupt_index] ^= 0xFF;

    let sor_corrupted = parse_file(&corrupted).unwrap();
    let res_bad = validate_checksum(&corrupted, &sor_corrupted);

    assert_eq!(res_bad.status, ChecksumStatus::Mismatch);
    assert!(res_bad.matched.is_none());
    assert!(res_bad.matched_by.is_none());
}

#[test]
fn test_parse_file() {
    let data = noyes();
    let res = parse_file(&data);
    let sor = res.unwrap();
    let fp = sor.fixed_parameters.unwrap();
    assert_eq!(sor.map.revision_number, 200);
    assert_eq!(sor.general_parameters.unwrap().nominal_wavelength, 1550);
    assert_eq!(fp.pulse_widths_used, vec![30]);
    assert_eq!(sor.data_points.unwrap().number_of_data_points, 30000);
    assert_eq!(sor.key_events.unwrap().number_of_key_events, 3);
    assert_eq!(fp.date_time_stamp, 1569835674);
    assert_eq!(fp.averaging_time, 3000);
    assert_eq!(fp.number_of_averages, 2704);
}

#[test]
fn test_parse_anritsu_file() {
    let data = anritsu();
    let res = parse_file(&data);
    let sor = res.unwrap();
    let fp = sor.fixed_parameters.unwrap();
    assert_eq!(sor.map.revision_number, 200);
    assert_eq!(sor.general_parameters.unwrap().nominal_wavelength, 1310);
    assert_eq!(sor.data_points.unwrap().number_of_data_points, 20001);
    assert_eq!(sor.key_events.unwrap().number_of_key_events, 3);
    assert_eq!(fp.date_time_stamp, 1592094230);
    assert_eq!(fp.averaging_time, 30);
    assert_eq!(fp.number_of_averages, 15360);
}

#[test]
fn test_parse_exfo_ftb4_file() {
    let data = exfo();
    let res = parse_file(&data);
    let sor = res.unwrap();
    let fp = sor.fixed_parameters.unwrap();
    assert_eq!(sor.map.revision_number, 200);
    assert_eq!(sor.general_parameters.unwrap().nominal_wavelength, 1310);
    assert_eq!(sor.data_points.unwrap().number_of_data_points, 25903);
    assert_eq!(sor.key_events.unwrap().number_of_key_events, 9);
    assert_eq!(fp.date_time_stamp, 1593101318);
    assert_eq!(fp.averaging_time, 7);
    assert_eq!(fp.number_of_averages, 4563);
}

#[test]
fn test_data_points_block() {
    let data = noyes();
    let sor = parse_file(&data).unwrap();
    let parsed = sor.data_points.unwrap();
    assert_eq!(parsed.scale_factors[0].data.len(), 30000);
    assert_eq!(parsed.scale_factors[0].n_points, 30000);
    assert_eq!(parsed.total_number_scale_factors_used, 1);
    assert_eq!(parsed.number_of_data_points, 30000);
    assert_eq!(parsed.scale_factors[0].data[2], 27);
}

#[test]
fn test_key_events_block() {
    let data = noyes();
    let sor = parse_file(&data).unwrap();
    assert_eq!(
        sor.key_events.unwrap(),
        KeyEvents {
            number_of_key_events: 3,
            key_events: vec![
                KeyEvent {
                    event_number: 1,
                    event_propogation_time: 0,
                    attenuation_coefficient_lead_in_fiber: 0,
                    event_loss: -215,
                    event_reflectance: -46671,
                    event_code: "1F9999".to_owned(),
                    loss_measurement_technique: "LS".to_owned(),
                    marker_location_1: 0,
                    marker_location_2: 0,
                    marker_location_3: 0,
                    marker_location_4: 0,
                    marker_location_5: 0,
                    comment: " ".to_owned()
                },
                KeyEvent {
                    event_number: 2,
                    event_propogation_time: 532,
                    attenuation_coefficient_lead_in_fiber: 0,
                    event_loss: 374,
                    event_reflectance: 0,
                    event_code: "0F9999".to_owned(),
                    loss_measurement_technique: "LS".to_owned(),
                    marker_location_1: 0,
                    marker_location_2: 0,
                    marker_location_3: 0,
                    marker_location_4: 0,
                    marker_location_5: 0,
                    comment: " ".to_owned()
                }
            ],
            last_key_event: LastKeyEvent {
                event_number: 3,
                event_propogation_time: 182802,
                attenuation_coefficient_lead_in_fiber: 185,
                event_loss: -950,
                event_reflectance: -23027,
                event_code: "2E9999".to_owned(),
                loss_measurement_technique: "LS".to_owned(),
                marker_location_1: 0,
                marker_location_2: 0,
                marker_location_3: 0,
                marker_location_4: 0,
                marker_location_5: 0,
                comment: " ".to_owned(),
                end_to_end_loss: 576,
                end_to_end_marker_position_1: 0,
                end_to_end_marker_position_2: 182809,
                optical_return_loss: 24516,
                optical_return_loss_marker_position_1: 0,
                optical_return_loss_marker_position_2: 182809
            }
        }
    );
}

#[test]
fn test_fixparam_block() {
    let data = noyes();
    let sor = parse_file(&data).unwrap();
    assert_eq!(
        sor.fixed_parameters.unwrap(),
        FixedParametersBlock {
            date_time_stamp: 1569835674,
            units_of_distance: "mt".to_owned(),
            actual_wavelength: 1550,
            acquisition_offset: -2147,
            acquisition_offset_distance: -42,
            total_n_pulse_widths_used: 1,
            pulse_widths_used: vec![30],
            data_spacing: vec![100000],
            n_data_points_for_pulse_widths_used: vec![30000],
            group_index: 146750,
            backscatter_coefficient: 802,
            number_of_averages: 2704,
            averaging_time: 3000,
            acquisition_range: 300000,
            acquisition_range_distance: 6000,
            front_panel_offset: 2147,
            noise_floor_level: 30342,
            noise_floor_scale_factor: 1000,
            power_offset_first_point: 0,
            loss_threshold: 50,
            reflectance_threshold: 65000,
            end_of_fibre_threshold: 3000,
            trace_type: "ST".to_owned(),
            window_coordinate_1: 0,
            window_coordinate_2: 0,
            window_coordinate_3: 0,
            window_coordinate_4: 0
        },
    );
}

#[test]
fn test_supparam_block() {
    let data = noyes();
    let sor = parse_file(&data).unwrap();
    assert_eq!(
        sor.supplier_parameters.unwrap(),
        SupplierParametersBlock {
            supplier_name: "Noyes".to_owned(),
            otdr_mainframe_id: "OFL280C-100".to_owned(),
            otdr_mainframe_sn: "2G14PT7552     ".to_owned(),
            optical_module_id: "0.0.43 ".to_owned(),
            optical_module_sn: " ".to_owned(),
            software_revision: "1.2.04b1011F ".to_owned(),
            other: "Last Calibration Date:  2019-03-25 ".to_owned()
        }
    );
}

#[test]
fn test_genparam_block() {
    let data = noyes();
    let sor = parse_file(&data).unwrap();
    assert_eq!(
        sor.general_parameters.unwrap(),
        GeneralParametersBlock {
            language_code: "EN".to_owned(),
            cable_id: "C001 ".to_owned(),
            fiber_id: "009".to_owned(),
            fiber_type: 652,
            nominal_wavelength: 1550,
            originating_location: "CAB000 ".to_owned(),
            terminating_location: "CLS007 ".to_owned(),
            cable_code: " ".to_owned(),
            current_data_flag: "NC".to_owned(),
            user_offset: 24641,
            user_offset_distance: 503,
            operator: " ".to_owned(),
            comment: " ".to_owned()
        }
    );
}

#[test]
fn test_map_block() {
    let data = noyes();
    let res = map_block(&data);
    assert_eq!(
        res.unwrap().1,
        MapBlock {
            revision_number: 200,
            block_size: 172,
            block_count: 11,
            block_info: vec![
                BlockInfo {
                    identifier: "GenParams".to_owned(),
                    revision_number: 200,
                    size: 58
                },
                BlockInfo {
                    identifier: "SupParams".to_owned(),
                    revision_number: 200,
                    size: 104
                },
                BlockInfo {
                    identifier: "FxdParams".to_owned(),
                    revision_number: 200,
                    size: 92
                },
                BlockInfo {
                    identifier: "FodParams".to_owned(),
                    revision_number: 200,
                    size: 266
                },
                BlockInfo {
                    identifier: "KeyEvents".to_owned(),
                    revision_number: 200,
                    size: 166
                },
                BlockInfo {
                    identifier: "Fod02Params".to_owned(),
                    revision_number: 200,
                    size: 38
                },
                BlockInfo {
                    identifier: "Fod04Params".to_owned(),
                    revision_number: 200,
                    size: 166
                },
                BlockInfo {
                    identifier: "Fod03Params".to_owned(),
                    revision_number: 200,
                    size: 26
                },
                BlockInfo {
                    identifier: "DataPts".to_owned(),
                    revision_number: 200,
                    size: 60020
                },
                BlockInfo {
                    identifier: "Cksum".to_owned(),
                    revision_number: 200,
                    size: 8
                }
            ]
        }
    );
}

#[test]
fn proprietary_blocks_keep_their_order_and_bytes() {
    let sor = parse_file(&noyes()).unwrap();
    let names: Vec<&str> = sor.proprietary_blocks.iter().map(|b| b.header.as_str()).collect();
    assert_eq!(names, vec!["FodParams", "Fod02Params", "Fod04Params", "Fod03Params"]);
    assert_eq!(sor.proprietary_blocks[0].data, vendor("FodParams", 266)[10..].to_vec());
    assert_eq!(sor.link_parameters, None);
    assert_eq!(sor.checksum.unwrap().checksum, 0x1234);
}

#[test]
fn stored_checksum_that_matches_nothing_is_a_mismatch() {
    let data = noyes();
    let sor = parse_file(&data).unwrap();
    let res = validate_checksum(&data, &sor);
    assert_eq!(res.status, ChecksumStatus::Mismatch);
    assert_eq!(res.stored, Some(0x1234));
    assert_eq!(res.matched, None);
    assert_eq!(res.matched_by, None);
}

#[test]
fn blocks_are_found_in_any_order() {
    let t = Trace { wavelength: 1625, date: 7, averages: 1, averaging_time: 2, n_points: 5, events: 1 };
    let data = assemble(&[
        ("DataPts", data_points(&t)),
        ("Vendor", vendor("Vendor", 20)),
        ("KeyEvents", key_events(&t)),
        ("FxdParams", fixed_parameters(&t)),
        ("GenParams", general_parameters(&t)),
    ]);
    let sor = parse_file(&data).unwrap();
    assert_eq!(sor.general_parameters.as_ref().unwrap().nominal_wavelength, 1625);
    assert_eq!(sor.key_events.as_ref().unwrap().key_events.len(), 0);
    assert_eq!(sor.data_points.as_ref().unwrap().scale_factors[0].data, vec![13, 20, 27, 34, 41]);
    assert_eq!(sor.supplier_parameters, None);
    assert_eq!(validate_checksum(&data, &sor).status, ChecksumStatus::Missing);
    // Written, the blocks come in the format's order.
    let out = parse_file(&sor.to_bytes().unwrap()).unwrap();
    let names: Vec<&str> = out.map.block_info.iter().map(|b| b.identifier.as_str()).collect();
    assert_eq!(names, vec!["GenParams", "FxdParams", "KeyEvents", "DataPts", "Vendor", "Cksum"]);
    assert_eq!(out.map.block_count, 7);
    assert_eq!(out.map.block_size, 12 + 16 + 16 + 16 + 14 + 13 + 12);
    assert_eq!(out.map.block_info[5].revision_number, 200);
    assert_eq!(out.map.block_info[5].size, 8);
}

#[test]
fn sizes_beyond_the_file_are_refused() {
    let mut data = noyes();
    data.truncate(data.len() - 1);
    assert_eq!(parse_file(&data).err().map(|e| e.kind), Some(ParseErrorKind::SizeOverflow));
}

#[test]
fn negative_size_is_refused() {
    let t = Trace { wavelength: 1625, date: 7, averages: 1, averaging_time: 2, n_points: 5, events: 1 };
    let mut data = assemble(&[("GenParams", general_parameters(&t))]);
    // the size field of the only entry
    data[24..28].copy_from_slice(&(-1i32).to_le_bytes());
    assert_eq!(parse_file(&data).err().map(|e| e.kind), Some(ParseErrorKind::NegativeBlockSize));
}

#[test]
fn map_that_counts_no_block_is_refused() {
    let mut data = Vec::new();
    nts(&mut data, "Map");
    le16(&mut data, 200);
    le32(&mut data, 12);
    le16(&mut data, 0);
    assert_eq!(parse_file(&data).err().map(|e| e.kind), Some(ParseErrorKind::CountUnderflow));
    assert_eq!(map_block(&data).err().map(|e| e.kind), Some(ParseErrorKind::CountUnderflow));
}

#[test]
fn file_without_map_is_refused() {
    assert_eq!(parse_file(b"GenParams\0").err().map(|e| e.kind), Some(ParseErrorKind::BadHeader));
    assert_eq!(parse_file(b"").err().map(|e| e.kind), Some(ParseErrorKind::BadHeader));
}

#[test]
fn missing_entry_in_the_map_stops_writing() {
    let mut sor = test_sor_load();
    sor.map.block_info.retain(|b| b.identifier != "KeyEvents");
    assert_eq!(sor.to_bytes(), Err(WriteError::MissingBlockInfo("KeyEvents".to_string())));
    let mut sor = test_sor_load();
    sor.proprietary_blocks[1].header = "Renamed".to_string();
    assert_eq!(sor.to_bytes(), Err(WriteError::MissingBlockInfo("Renamed".to_string())));
}

#[test]
fn each_mandatory_block_is_missed_by_name() {
    let mut sor = test_sor_load();
    sor.fixed_parameters = None;
    assert_eq!(sor.to_bytes(), Err(WriteError::MissingMandatoryBlock("FxdParams".to_string())));
    let mut sor = test_sor_load();
    sor.key_events = None;
    assert_eq!(sor.to_bytes(), Err(WriteError::MissingMandatoryBlock("KeyEvents".to_string())));
    let mut sor = test_sor_load();
    sor.data_points = None;
    assert_eq!(sor.to_bytes(), Err(WriteError::MissingMandatoryBlock("DataPts".to_string())));
    let mut sor = test_sor_load();
    sor.supplier_parameters = None;
    let out = parse_file(&sor.to_bytes().unwrap()).unwrap();
    assert_eq!(out.supplier_parameters, None);
}

#[test]
fn strings_that_cannot_be_written_stop_writing() {
    let mut sor = test_sor_load();
    sor.general_parameters.as_mut().unwrap().language_code = "ENG".to_string();
    assert_eq!(sor.to_bytes(), Err(WriteError::FixedLengthStringMismatchError));
    let mut sor = test_sor_load();
    sor.general_parameters.as_mut().unwrap().comment = "caf\u{e9}".to_string();
    assert_eq!(sor.to_bytes(), Err(WriteError::Utf8EncodingError));
    let mut sor = test_sor_load();
    sor.key_events.as_mut().unwrap().key_events[4].event_code = "1234567".to_string();
    assert_eq!(sor.to_bytes(), Err(WriteError::FixedLengthStringMismatchError));
}

#[test]
fn short_fixed_string_is_padded_and_read_back() {
    let mut sor = test_sor_load();
    sor.general_parameters.as_mut().unwrap().language_code = "E".to_string();
    let bytes = sor.gen_general_parameters().unwrap();
    assert_eq!(&bytes[10..12], b"E\0");
    let out = parse_file(&sor.to_bytes().unwrap()).unwrap();
    assert_eq!(out.general_parameters.unwrap().language_code, "E");
}

#[test]
fn checksum_is_located_by_the_map() {
    let sor = test_sor_load();
    let bytes = sor.to_bytes().unwrap();
    let mut out = parse_file(&bytes).unwrap();
    // shorter than the map says
    assert_eq!(validate_checksum(&bytes[..bytes.len() - 1], &out).status, ChecksumStatus::Error);
    assert_eq!(validate_checksum(&bytes[..bytes.len() - 1], &out).stored, None);
    // no entry for the checksum block
    out.map.block_info.pop();
    assert_eq!(validate_checksum(&bytes, &out).status, ChecksumStatus::Error);
    // no checksum block
    out.checksum = None;
    assert_eq!(validate_checksum(&bytes, &out).status, ChecksumStatus::Missing);
}

#[test]
fn error_in_a_block_is_placed_in_the_file() {
    let t = Trace { wavelength: 1625, date: 7, averages: 1, averaging_time: 2, n_points: 5, events: 1 };
    let mut gp = general_parameters(&t);
    // the cable identifier, which begins twelve bytes into the block
    gp[12] = 0x80;
    let data = assemble(&[("GenParams", gp), ("DataPts", data_points(&t))]);
    let e = parse_file(&data).unwrap_err();
    assert_eq!(e.kind, ParseErrorKind::NonAsciiEncoding);
    let map_len = 12 + 16 + 14;
    assert_eq!(e.offset(data.len()), map_len + 12);
    // an error of the map is placed after the map
    let mut short = noyes();
    short.truncate(short.len() - 1);
    assert_eq!(
        parse_file(&short),
        Err(ParseError { kind: ParseErrorKind::SizeOverflow, remaining: short.len() - 172 })
    );
}
