use fdv_convert::fdv::{identifier, metadata_line};
use fdv_convert::flow::{depth_in_millimetres, fill_nulls, pipe_text, FDVFlowCreator, FDVFlowCreatorError};
use fdv_convert::rainfall::{rain_field_chars, FDVRainfallCreator, FDVRainfallCreatorError};
use fdv_convert::smoothing::smooth_rainfall;

#[test]
fn tip_after_three_dry_slots_is_capped_and_carried() {
    // 8 mm after three dry intervals: the three share 6 mm, the tip keeps 2 mm.
    let out = smooth_rainfall(&vec![0, 0, 0, 8000]);
    assert_eq!(out, vec![120_000, 120_000, 120_000, 120_000]);
}

#[test]
fn small_tip_is_spread_evenly() {
    let out = smooth_rainfall(&vec![0, 0, 600]);
    assert_eq!(out, vec![12_000, 12_000, 12_000]);
}

#[test]
fn spread_looks_back_at_most_four_slots() {
    let out = smooth_rainfall(&vec![0, 0, 0, 0, 0, 0, 500]);
    assert_eq!(out, vec![0, 0, 6_000, 6_000, 6_000, 6_000, 6_000]);
}

#[test]
fn smoothing_conserves_total() {
    let input = vec![0, 200, 0, 0, 0, 0, 9000, 0, 400, 0, 0, 0, 0, 0, 0, 0, 0, 200, 7000, 0, 0, 0];
    let out = smooth_rainfall(&input);
    assert_eq!(out.len(), input.len());
    let total_in: i64 = input.iter().sum();
    let total_out: i64 = out.iter().sum();
    assert_eq!(total_out, 60 * total_in);
}

#[test]
fn rain_fields_are_fifteen_wide_with_one_decimal() {
    let f: String = rain_field_chars(120_000).into_iter().collect();
    assert_eq!(f, "            2.0");
    let g: String = rain_field_chars(12_000).into_iter().collect();
    assert_eq!(g, "            0.2");
    let h: String = rain_field_chars(-6_000).into_iter().collect();
    assert_eq!(h, "           -0.1");
}

#[test]
fn rainfall_file_text() {
    let mut c = FDVRainfallCreator::new();
    c.set_parameters(
        vec![Some(0), None, Some(200), Some(0), Some(0), Some(0)],
        "SiteA1",
        "2024-01-01 00:00:00",
        "2024-01-01 00:10:00",
        2,
    )
    .unwrap();
    let t = c.create_fdv_rainfall().unwrap();
    assert_eq!(c.get_null_readings(), 1);
    let lines: Vec<&str> = t.split('\n').collect();
    assert_eq!(lines[1], "**IDENTIFIER:            1,SITEA1");
    assert_eq!(lines[23], "202401010000 202401010010   2");
    assert_eq!(lines[24], "*CEND");
    assert_eq!(
        lines[25],
        "            0.1            0.1            0.1            0.0            0.0"
    );
    assert_eq!(lines[26], "            0.0");
    assert_eq!(lines[27], "");
    assert_eq!(lines[28], "*END");
}

#[test]
fn rainfall_needs_its_parameters() {
    let mut c = FDVRainfallCreator::new();
    assert!(matches!(c.create_fdv_rainfall(), Err(FDVRainfallCreatorError::InvalidParameter(_))));
    assert!(matches!(c.set_starting_time("yesterday"), Err(FDVRainfallCreatorError::ParseError(_))));
}

#[test]
fn flow_file_text() {
    let mut c = FDVFlowCreator::new();
    c.set_site_name("a very long site name");
    c.set_pipe_dia(300);
    c.set_starting_time("2024-01-01 00:00:00").unwrap();
    c.set_ending_time("2024-01-01 00:04:00").unwrap();
    c.set_interval(2);
    c.set_records(vec!["  100  120 0.50".to_string(), "    0    0 0.00".to_string()], 0, 1);
    let t = c.create_fdv_flow().unwrap();
    assert_eq!(c.get_null_readings(), (0, 1));
    let lines: Vec<&str> = t.split('\n').collect();
    assert_eq!(lines[1], "**IDENTIFIER:            1,A VERY LONG SIT");
    assert_eq!(lines[11], "  0.300 UNKNOWN");
    assert_eq!(lines[12], "202401010000 202401010004   2");
    assert_eq!(lines[13], "*CEND");
    assert_eq!(lines[14], "  100  120 0.50    0    0 0.00");
    assert_eq!(lines[15], "");
    assert_eq!(lines[16], "*END");
}

#[test]
fn flow_needs_its_parameters() {
    let c = FDVFlowCreator::new();
    assert!(matches!(c.create_fdv_flow(), Err(FDVFlowCreatorError::InvalidParameter(_))));
}

#[test]
fn pipe_size_line() {
    assert_eq!(pipe_text(300), "  0.300 UNKNOWN");
    assert_eq!(pipe_text(-1000), " -1.000 UNKNOWN");
    assert_eq!(pipe_text(1525), "  1.525 UNKNOWN");
}

#[test]
fn millimetre_depth_columns() {
    assert!(depth_in_millimetres("100_1|Pipe|Depth|mm"));
    assert!(!depth_in_millimetres("100_1|Pipe|Level|mm"));
    assert!(!depth_in_millimetres("100_1|Pipe|Depth|m"));
}

#[test]
fn identifier_is_cut_and_upper_cased() {
    assert_eq!(identifier("site b2"), "**IDENTIFIER:            1,SITE B2");
    assert_eq!(identifier("abcdefghijklmnopq"), "**IDENTIFIER:            1,ABCDEFGHIJKLMNO");
}

#[test]
fn metadata_line_uses_compact_instants() {
    assert_eq!(
        metadata_line(1_704_067_200, 1_704_070_800, 15).unwrap(),
        "202401010000 202401010100   15"
    );
}

#[test]
fn level_columns_are_recognised_in_any_case() {
    assert!(!depth_in_millimetres("100_1|Pipe|LEVEL|mm"));
    assert!(depth_in_millimetres("100_1|Pipe|DEPTH|mm"));
}

fn flow_lines(n: usize) -> Vec<String> {
    let mut c = FDVFlowCreator::new();
    c.set_starting_time("2024-01-01 00:00:00").unwrap();
    c.set_ending_time("2024-01-01 01:00:00").unwrap();
    c.set_interval(2);
    c.set_records(vec!["  100  120 0.50".to_string(); n], 0, 0);
    c.create_fdv_flow().unwrap().split('\n').map(|l| l.to_string()).collect()
}

#[test]
fn flow_tail_has_one_blank_line_with_four_records() {
    let lines = flow_lines(4);
    assert_eq!(lines[14], "  100  120 0.50".repeat(4));
    assert_eq!(lines[15], "");
    assert_eq!(lines[16], "*END");
    assert_eq!(lines.len(), 18);
}

#[test]
fn flow_tail_has_one_blank_line_with_five_records() {
    let lines = flow_lines(5);
    assert_eq!(lines[14], "  100  120 0.50".repeat(5));
    assert_eq!(lines[15], "");
    assert_eq!(lines[16], "*END");
    assert_eq!(lines.len(), 18);
}

#[test]
fn nulls_are_counted_and_read_as_zero() {
    let (v, n) = fill_nulls(&vec![Some(1.5f64), None, Some(2.0), None], 0.0);
    assert_eq!(v, vec![1.5, 0.0, 2.0, 0.0]);
    assert_eq!(n, 2);
}

#[test]
fn rainfall_buffer_is_empty_after_processing() {
    let mut c = FDVRainfallCreator::new();
    c.set_samples(vec![Some(0), Some(100), None, Some(0), Some(0), Some(0), Some(0), Some(0), Some(0), Some(0), Some(0), Some(7)]);
    c.process_data().unwrap();
    assert!(c.output_buffer.is_empty());
    assert_eq!(c.emitted.len(), 12);
    assert_eq!(c.get_null_readings(), 1);
}

#[test]
fn rainfall_out_of_range_sample_is_rejected() {
    let mut c = FDVRainfallCreator::new();
    c.set_parameters(vec![Some(2_000_000_000_000)], "S", "2024-01-01 00:00:00", "2024-01-01 00:02:00", 2)
        .unwrap();
    assert!(matches!(c.create_fdv_rainfall(), Err(FDVRainfallCreatorError::InvalidParameter(_))));
}
