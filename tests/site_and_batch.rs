use fdv_convert::batch::{
    collect_outputs, extract_column_name, output_filename, plan_job, BatchProcessingError,
    JobKind,
};
use fdv_convert::calculator::{CalculationError, R3CalculatorError};
use fdv_convert::columns::{ColumnEntry, ColumnMapping};
use fdv_convert::logging::should_filter_log;
use fdv_convert::paths::{file_extension, file_stem};
use fdv_convert::site_info::SiteInfo;

fn mapping(depth: bool, velocity: bool, flow: bool, rain: bool) -> ColumnMapping {
    let e = |n: &str, id: Option<&str>| ColumnEntry {
        name: n.to_string(),
        index: 1,
        logger_id: id.map(|s| s.to_string()),
        pin_id: None,
    };
    ColumnMapping {
        timestamp: vec![e("Timestamp", None)],
        depth: if depth { vec![e("d", Some("42"))] } else { vec![] },
        flow: if flow { vec![e("f", None)] } else { vec![] },
        velocity: if velocity { vec![e("v", Some("43"))] } else { vec![] },
        rainfall: if rain { vec![e("r", None)] } else { vec![] },
    }
}

#[test]
fn site_name_and_id_from_file_name() {
    let mut s = SiteInfo::new();
    s.extract_site_info("/data/SiteA1.csv", &mapping(true, true, false, false)).unwrap();
    assert_eq!(s.get_site_id(), "SiteA1");
    assert_eq!(s.get_site_name(), "SiteA1");
    assert_eq!(s.get_monitor_type(), "Flow");
}

#[test]
fn site_id_only_from_digits_then_named_after_it() {
    let mut s = SiteInfo::new();
    s.extract_site_info("1234.csv", &mapping(true, false, false, false)).unwrap();
    assert_eq!(s.get_site_id(), "1234");
    assert_eq!(s.get_site_name(), "1234");
    assert_eq!(s.get_monitor_type(), "Depth");
}

#[test]
fn site_id_from_channels_when_name_gives_none() {
    let mut s = SiteInfo::new();
    s.extract_site_info("north_rg.csv", &mapping(true, true, false, false)).unwrap();
    assert_eq!(s.get_site_id(), "42");
    assert_eq!(s.get_site_name(), "42");
    assert_eq!(s.get_monitor_type(), "Rainfall");
}

#[test]
fn monitor_type_from_channels() {
    let mut s = SiteInfo::new();
    s.determine_monitor_type("x.csv", &mapping(false, false, false, true));
    assert_eq!(s.get_monitor_type(), "Rainfall");
    s.determine_monitor_type("x.csv", &mapping(false, false, true, false));
    assert_eq!(s.get_monitor_type(), "Flow");
    s.determine_monitor_type("site_FM.csv", &mapping(false, false, false, true));
    assert_eq!(s.get_monitor_type(), "Flow");
    let mut u = SiteInfo::new();
    u.determine_monitor_type("x.csv", &mapping(false, false, false, false));
    assert_eq!(u.get_monitor_type(), "Unknown");
}

#[test]
fn finalize_keeps_known_name() {
    let mut s = SiteInfo::new();
    s.finalize();
    assert_eq!(s.get_site_name(), "Unknown");
    s.extract_from_filename("Abc9.xlsx").unwrap();
    s.finalize();
    assert_eq!(s.get_site_name(), "Abc9");
}

#[test]
fn path_without_file_name_is_rejected() {
    let mut s = SiteInfo::new();
    assert!(s.extract_site_info("/", &mapping(false, false, false, false)).is_err());
}

#[test]
fn batch_with_a_failed_job_fails_as_a_whole() {
    let results = vec![
        Ok("out/A1.fdv".to_string()),
        Err(BatchProcessingError::FileProcessingError("Input file does not exist".to_string())),
        Ok("out/B2.r".to_string()),
    ];
    assert!(matches!(
        collect_outputs(results),
        Err(BatchProcessingError::FileProcessingError(_))
    ));
}

#[test]
fn batch_with_all_jobs_done_lists_outputs_in_order() {
    let results = vec![Ok("a".to_string()), Ok("b".to_string())];
    assert_eq!(collect_outputs(results).unwrap(), vec!["a".to_string(), "b".to_string()]);
}

#[test]
fn job_planning() {
    assert_eq!(plan_job("Flow", Some("Circular"), Some("300")).unwrap(), JobKind::Flow);
    assert_eq!(plan_job("Rainfall", None, None).unwrap(), JobKind::Rainfall);
    assert!(plan_job("Depth", None, Some("300")).is_err());
    assert!(plan_job("Unknown", Some("Circular"), Some("300")).is_err());
    assert_eq!(output_filename("SiteA1", "Rainfall"), "SiteA1.r");
    assert_eq!(output_filename("SiteA1", "Flow"), "SiteA1.fdv");
}

#[test]
fn first_column_of_a_role() {
    let m = mapping(true, false, false, false);
    assert_eq!(extract_column_name(&m.depth).unwrap(), "d");
    assert!(extract_column_name(&m.velocity).is_err());
}

#[test]
fn event_loop_noise_is_filtered() {
    assert!(should_filter_log(
        "tao::platform_impl::platform::event_loop::runner",
        "NewEvents emitted without explicit RedrawEventsCleared"
    ));
    assert!(!should_filter_log("app", "NewEvents emitted without explicit RedrawEventsCleared"));
    assert!(!should_filter_log("tao::platform_impl::platform::event_loop::runner", "hello"));
}

#[test]
fn calculation_errors() {
    let e = CalculationError::new("Pipe Radius Invalid.");
    assert_eq!(e.describe(), "Calculation Error: Pipe Radius Invalid.");
    assert_ne!(R3CalculatorError::MathDomainError, R3CalculatorError::ConvergenceError);
}

#[test]
fn monitor_type_comes_from_the_file_name_not_its_directories() {
    let mut s = SiteInfo::new();
    s.extract_site_info("/home/admin/SiteA1.csv", &mapping(true, true, false, false)).unwrap();
    assert_eq!(s.get_monitor_type(), "Flow");
    let mut t = SiteInfo::new();
    t.determine_monitor_type("/data/rain/north_dm.csv", &mapping(false, false, false, true));
    assert_eq!(t.get_monitor_type(), "Depth");
}

#[test]
fn stems_and_extensions_split_at_the_last_dot() {
    assert_eq!(file_stem("/data/a.b.csv").as_deref(), Some("a.b"));
    assert_eq!(file_extension("/data/a.b.csv").as_deref(), Some("csv"));
    assert_eq!(file_stem("/data/.bashrc").as_deref(), Some(".bashrc"));
    assert_eq!(file_extension("/data/.bashrc"), None);
    assert_eq!(file_stem("noext").as_deref(), Some("noext"));
    assert_eq!(file_extension("noext"), None);
    assert_eq!(file_stem("file.").as_deref(), Some("file"));
    assert_eq!(file_extension("file.").as_deref(), Some(""));
    assert_eq!(file_stem("/"), None);
    assert_eq!(file_stem("a/.."), None);
}
