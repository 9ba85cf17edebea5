use fdv_convert::columns::ColumnMapping;
use fdv_convert::ingest::{majority_format, mode_interval, regularize, Dataset, FileData, FileProcessorError};
use fdv_convert::processor::{format_timestamp, source_format, FileProcessor, SourceFormat};

fn s(x: &str) -> String {
    x.to_string()
}

fn row(cells: &[&str]) -> Vec<String> {
    cells.iter().map(|c| c.to_string()).collect()
}

fn site_a1_data() -> FileData {
    FileData {
        headers: row(&["Timestamp", "100_1|Pipe|Depth|mm", "100_1|Pipe|Velocity|m/s"]),
        data: vec![
            row(&["2024-01-01 00:00:00", "120", "0.5"]),
            row(&["2024-01-01 00:02:00", "121", "0.6"]),
            row(&["2024-01-01 00:04:00", "122", "0.7"]),
            row(&["2024-01-01 00:08:00", "124", "0.8"]),
            row(&["2024-01-01 00:10:00", "125", "0.9"]),
        ],
    }
}

#[test]
fn scenario_site_a1_two_minute_flow_file() {
    let mut fp = FileProcessor::new(None);
    let p = fp.process_file("SiteA1.csv", site_a1_data()).unwrap();
    assert_eq!(p.site_id, "SiteA1");
    assert_eq!(p.site_name, "SiteA1");
    assert_eq!(p.monitor_type, "Flow");
    assert_eq!(p.interval, 120);
    assert_eq!(p.end_timestamp - p.start_timestamp, 600);
    assert_eq!(p.df.times.len(), 6);
    assert_eq!(p.gaps_filled, 1);
    let depth = &p.column_mapping.depth[0];
    assert_eq!(depth.name, "100_1|Pipe|Depth|mm");
    assert_eq!(depth.index, 1);
    assert_eq!(depth.logger_id.as_deref(), Some("100"));
    assert_eq!(depth.pin_id.as_deref(), Some("1"));
    assert_eq!(p.column_mapping.velocity.len(), 1);
    assert_eq!(p.column_mapping.timestamp[0].index, 0);
    assert!(p.column_mapping.rainfall.is_empty());
}

#[test]
fn regularized_series_is_evenly_spaced_and_counts_gaps() {
    let mut fp = FileProcessor::new(None);
    let p = fp.process_file("SiteA1.csv", site_a1_data()).unwrap();
    for (k, t) in p.df.times.iter().enumerate() {
        assert_eq!(*t, p.start_timestamp + (k as i64) * p.interval);
    }
    let blank = p.df.rows.iter().filter(|r| r.iter().all(|c| c.is_empty())).count();
    assert_eq!(blank, p.gaps_filled);
    // grid points minus the rows that were read, none duplicated
    assert_eq!(p.gaps_filled, 6 - 5);
    assert_eq!(p.df.rows[4][1], "124");
}

#[test]
fn interval_is_the_most_frequent_spacing_not_the_mean() {
    let t = 1_700_000_000i64;
    let times = vec![t, t + 300, t + 600, t + 900, t + 1200, t + 1920];
    assert_eq!(mode_interval(&times), Some(300));
}

#[test]
fn interval_tie_goes_to_the_spacing_seen_first() {
    let times = vec![0i64, 120, 180, 300, 360];
    assert_eq!(mode_interval(&times), Some(120));
    assert_eq!(mode_interval(&vec![5i64, 5, 5]), Some(0));
    assert_eq!(mode_interval(&vec![0i64, 0, 0, 300]), Some(0));
    assert_eq!(mode_interval(&vec![5i64]), None);
}

#[test]
fn regularize_fills_gaps_and_keeps_last_duplicate() {
    let headers = row(&["time", "v"]);
    let rows = vec![row(&["a", "1"]), row(&["b", "2"]), row(&["c", "3"]), row(&["d", "4"])];
    let times = vec![Some(0i64), Some(60), Some(180), Some(60)];
    let (ds, gaps) = regularize(&headers, 0, &rows, &times, 0, 180, 60);
    assert_eq!(ds.times, vec![0, 60, 120, 180]);
    assert_eq!(gaps, 1);
    assert_eq!(ds.rows[1][1], "4");
    assert_eq!(ds.rows[2], row(&["", ""]));
    assert_eq!(ds.rows[3][1], "3");
}

#[test]
fn regularize_drops_rows_off_the_grid() {
    let headers = row(&["time", "v"]);
    let rows = vec![row(&["a", "1"]), row(&["b", "2"]), row(&["c", "3"])];
    let times = vec![Some(0i64), Some(90), None];
    let (ds, gaps) = regularize(&headers, 0, &rows, &times, 0, 120, 60);
    assert_eq!(ds.times, vec![0, 60, 120]);
    assert_eq!(gaps, 2);
}

#[test]
fn majority_vote_prefers_higher_priority_on_tie() {
    assert_eq!(majority_format(&vec![Some(3), Some(1), None, Some(3), Some(1)]), Some(1));
    assert_eq!(majority_format(&vec![Some(5), Some(5), Some(0)]), Some(5));
    assert_eq!(majority_format(&vec![None, None]), None);
}

#[test]
fn timestamp_format_detected_by_majority() {
    let fp = FileProcessor::new(None);
    let fd = FileData {
        headers: row(&["Date Time", "x"]),
        data: vec![
            row(&["13/01/2024 10:00", "1"]),
            row(&["14/01/2024 10:00", "1"]),
            row(&["garbage", "1"]),
        ],
    };
    assert_eq!(fp.identify_timestamp_format(&fd, "Date Time").unwrap(), "%d/%m/%Y %H:%M");
    assert_eq!(fp.identify_timestamp_column(&fd).unwrap(), "Date Time");
}

#[test]
fn empty_table_is_rejected() {
    let mut fp = FileProcessor::new(None);
    let fd = FileData { headers: row(&["Timestamp"]), data: vec![] };
    assert!(matches!(fp.process_file("x.csv", fd), Err(FileProcessorError::EmptyFileData)));
}

#[test]
fn missing_timestamp_column_is_rejected() {
    let mut fp = FileProcessor::new(None);
    let fd = FileData { headers: row(&["a", "b"]), data: vec![row(&["1", "2"])] };
    assert!(matches!(
        fp.process_file("x.csv", fd),
        Err(FileProcessorError::TimestampColumnNotFound)
    ));
}

#[test]
fn unreadable_timestamps_are_rejected() {
    let mut fp = FileProcessor::new(None);
    let fd = FileData { headers: row(&["Timestamp"]), data: vec![row(&["soon"]), row(&["later"])] };
    assert!(matches!(
        fp.process_file("x.csv", fd),
        Err(FileProcessorError::TimestampFormatNotIdentified)
    ));
}

#[test]
fn single_timestamp_has_no_interval() {
    let mut fp = FileProcessor::new(None);
    let fd = FileData { headers: row(&["Timestamp"]), data: vec![row(&["2024-01-01 00:00:00"])] };
    assert!(matches!(fp.process_file("x.csv", fd), Err(FileProcessorError::ParseError(_))));
}

#[test]
fn parse_dates_normalises_and_marks_invalid() {
    let fp = FileProcessor::new(None);
    let mut fd = FileData {
        headers: row(&["Timestamp"]),
        data: vec![row(&["13/01/2024 10:05"]), row(&["nope"])],
    };
    fp.parse_dates(&mut fd, "Timestamp", "%d/%m/%Y %H:%M").unwrap();
    assert_eq!(fd.data[0][0], "2024-01-13 10:05:00");
    assert_eq!(fd.data[1][0], "Invalid Date");
}

#[test]
fn reslice_to_full_range_keeps_every_row() {
    let mut fp = FileProcessor::new(None);
    let p = fp.process_file("SiteA1.csv", site_a1_data()).unwrap();
    let before = p.df.times.len();
    let u = fp.update_timestamps("2024-01-01 00:00:00", "2024-01-01 00:10:00").unwrap();
    assert_eq!(u.row_count, before);
    assert_eq!(u.interval, 120);
}

#[test]
fn reslice_narrows_and_rejects_bad_ranges() {
    let mut fp = FileProcessor::new(None);
    fp.process_file("SiteA1.csv", site_a1_data()).unwrap();
    let u = fp.update_timestamps("2024-01-01 00:02:00", "2024-01-01 00:06:00").unwrap();
    assert_eq!(u.row_count, 3);
    assert!(matches!(
        fp.update_timestamps("2024-01-01 00:06:00", "2024-01-01 00:02:00"),
        Err(FileProcessorError::ParseError(_))
    ));
    assert!(matches!(
        fp.update_timestamps("2030-01-01 00:00:00", "2030-01-02 00:00:00"),
        Err(FileProcessorError::ParseError(_))
    ));
    let mut empty = FileProcessor::new(None);
    assert!(matches!(
        empty.update_timestamps("2024-01-01 00:00:00", "2024-01-02 00:00:00"),
        Err(FileProcessorError::ParseError(_))
    ));
}

#[test]
fn classification_by_header_patterns() {
    let headers = vec![
        s("Time"),
        s("7_2|Site|Rainfall|mm"),
        s("3_4|x|Level|m"),
        s("5_6|x|FLOW|l/s"),
        s("plain"),
    ];
    let m = ColumnMapping::classify(&headers, "Time");
    assert_eq!(m.rainfall.len(), 1);
    assert_eq!(m.rainfall[0].logger_id.as_deref(), Some("7"));
    assert_eq!(m.depth[0].index, 2);
    assert_eq!(m.flow[0].pin_id.as_deref(), Some("6"));
    assert!(m.velocity.is_empty());
    assert_eq!(m.timestamp[0].index, 0);
}

#[test]
fn reader_chosen_by_extension() {
    assert_eq!(source_format("data/Site1.XLSX").unwrap(), SourceFormat::Spreadsheet);
    assert_eq!(source_format("Site1.csv").unwrap(), SourceFormat::Delimited);
    assert!(matches!(source_format("Site1.txt"), Err(FileProcessorError::UnsupportedFileFormat(e)) if e == "txt"));
    assert!(matches!(source_format("Site1"), Err(FileProcessorError::UnsupportedFileFormat(_))));
}

#[test]
fn custom_timestamp_keywords() {
    let fp = FileProcessor::new(Some(vec!["when".to_string()]));
    let fd = FileData { headers: row(&["Time", "When (UTC)"]), data: vec![row(&["x", "y"])] };
    assert_eq!(fp.identify_timestamp_column(&fd).unwrap(), "When (UTC)");
}

#[test]
fn interval_and_range_of_unsorted_rows() {
    let fp = FileProcessor::new(None);
    let fd = FileData {
        headers: row(&["Timestamp", "x"]),
        data: vec![
            row(&["2024-01-01 00:20:00", "1"]),
            row(&["2024-01-01 00:00:00", "1"]),
            row(&["2024-01-01 00:10:00", "1"]),
            row(&["bad", "1"]),
            row(&["2024-01-01 00:30:00", "1"]),
        ],
    };
    let fmt = "%Y-%m-%d %H:%M:%S";
    assert_eq!(fp.calculate_interval(&fd, "Timestamp", fmt).unwrap(), 600);
    let (lo, hi) = fp.get_start_end_timestamps(&fd, "Timestamp", fmt).unwrap();
    assert_eq!(hi - lo, 1800);
    assert_eq!(lo, 1_704_067_200);
    assert!(matches!(
        fp.calculate_interval(&fd, "Missing", fmt),
        Err(FileProcessorError::TimestampColumnNotFound)
    ));
}

#[test]
fn user_times_are_normalised() {
    assert_eq!(format_timestamp("2024-03-05T07:30").unwrap(), "2024-03-05 07:30:00");
    assert_eq!(format_timestamp("2024-03-05 07:30:15").unwrap(), "2024-03-05 07:30:15");
    assert!(format_timestamp("5 March").is_none());
}

#[test]
fn site_overrides() {
    let mut fp = FileProcessor::new(None);
    let mut p = fp.process_file("SiteA1.csv", site_a1_data()).unwrap();
    p.update_site_id("X9".to_string());
    p.update_site_name("North Outfall".to_string());
    assert_eq!(p.site_id, "X9");
    assert_eq!(p.site_name, "North Outfall");
    assert_eq!(p.monitor_type, "Flow");
}

#[test]
fn identical_timestamps_have_a_zero_mode_and_fail() {
    let mut fp = FileProcessor::new(None);
    let fd = FileData {
        headers: row(&["Timestamp", "v"]),
        data: vec![
            row(&["2024-01-01 00:00:00", "1"]),
            row(&["n/a", "2"]),
            row(&["2024-01-01 00:00:00", "3"]),
        ],
    };
    assert!(matches!(fp.process_file("S1.csv", fd), Err(FileProcessorError::ParseError(_))));
}

#[test]
fn duplicates_making_zero_the_mode_are_an_error() {
    let fd = FileData {
        headers: row(&["Timestamp"]),
        data: vec![
            row(&["2024-01-01 00:00:00"]),
            row(&["2024-01-01 00:00:00"]),
            row(&["2024-01-01 00:00:00"]),
            row(&["2024-01-01 00:05:00"]),
        ],
    };
    let fmt = "%Y-%m-%d %H:%M:%S";
    let mut fp = FileProcessor::new(None);
    assert_eq!(fp.calculate_interval(&fd, "Timestamp", fmt).unwrap(), 0);
    assert!(matches!(
        fp.create_timestamp_series(&fd, "Timestamp", fmt),
        Err(FileProcessorError::ParseError(_))
    ));
    let one = FileData { headers: row(&["Timestamp"]), data: vec![row(&["2024-01-01 00:00:00"])] };
    assert!(matches!(
        fp.calculate_interval(&one, "Timestamp", fmt),
        Err(FileProcessorError::ParseError(_))
    ));
}

#[test]
fn unreadable_row_becomes_a_gap_not_a_failure() {
    let mut fp = FileProcessor::new(None);
    let fd = FileData {
        headers: row(&["Timestamp", "v"]),
        data: vec![
            row(&["2024-01-01 00:00:00", "1"]),
            row(&["n/a", "2"]),
            row(&["2024-01-01 00:05:00", "3"]),
            row(&["2024-01-01 00:10:00", "4"]),
            row(&["2024-01-01 00:20:00", "5"]),
        ],
    };
    let p = fp.process_file("S1.csv", fd).unwrap();
    assert_eq!(p.interval, 300);
    assert_eq!(p.df.times.len(), 5);
    assert_eq!(p.gaps_filled, 1);
}

#[test]
fn ingestion_leaves_the_series_loaded() {
    let mut fp = FileProcessor::new(None);
    let p = fp.process_file("SiteA1.csv", site_a1_data()).unwrap();
    assert_eq!(fp.df.as_ref().unwrap().times, p.df.times);
    assert_eq!(fp.interval, Some(p.interval));
    assert_eq!(fp.time_col.as_deref(), Some("Timestamp"));
    assert_eq!(fp.start_timestamp, Some(p.start_timestamp));
    assert_eq!(fp.end_timestamp, Some(p.end_timestamp));
}

#[test]
fn failed_reslice_keeps_range_and_repeat_gives_same_result() {
    let mut fp = FileProcessor::new(None);
    let p = fp.process_file("SiteA1.csv", site_a1_data()).unwrap();
    assert!(fp.update_timestamps("2024-01-01 00:06:00", "2024-01-01 00:02:00").is_err());
    assert_eq!(fp.start_timestamp, Some(p.start_timestamp));
    assert_eq!(fp.end_timestamp, Some(p.end_timestamp));
    let a = fp.update_timestamps("2024-01-01 00:02:00", "2024-01-01 00:08:00").unwrap();
    let b = fp.update_timestamps("2024-01-01 00:02:00", "2024-01-01 00:08:00").unwrap();
    assert_eq!((a.row_count, a.interval), (b.row_count, b.interval));
}

#[test]
fn reslice_without_known_interval_takes_it_from_the_rows() {
    let mut fp = FileProcessor::new(None);
    fp.df = Some(Dataset {
        headers: row(&["t"]),
        time_index: 0,
        times: vec![0, 60, 120, 240, 300],
        rows: vec![row(&[""]); 5],
    });
    fp.time_col = Some(s("t"));
    let u = fp.update_timestamps("1970-01-01 00:01:00", "1970-01-01 00:05:00").unwrap();
    assert_eq!(u.row_count, 4);
    assert_eq!(u.interval, 60);
    fp.interval = None;
    let v = fp.update_timestamps("1970-01-01 00:01:00", "1970-01-01 00:01:30").unwrap();
    assert_eq!(v.row_count, 1);
    assert_eq!(v.interval, 0);
}
