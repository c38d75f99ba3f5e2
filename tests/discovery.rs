use cdc_mirror::apply::{apply_mode, ApplyMode};
use cdc_mirror::discovery::{
    is_in_window, is_snapshot_key, order_for_apply, select_object, FileListing,
    ListedObject, LoadParquetFilesPayload, Timestamp,
};
use cdc_mirror::plan::{listing_request, plan_listing, DiscoveryError, ListingPlan};

const JAN_1: i64 = 1_704_067_200;
const DAY: i64 = 86_400;

fn at(secs: i64) -> Timestamp {
    Timestamp { secs, nanos: 0 }
}

fn object(key: &str, secs: i64) -> ListedObject {
    ListedObject { key: key.to_string(), last_modified: Some(at(secs)) }
}

fn strings(v: &[&str]) -> Vec<String> {
    v.iter().map(|s| s.to_string()).collect()
}

fn date_aware(start: &str, stop: Option<&str>) -> LoadParquetFilesPayload {
    LoadParquetFilesPayload::DateAware {
        bucket_name: "bucket".to_string(),
        s3_prefix: "exports".to_string(),
        database_name: "db".to_string(),
        schema_name: "public".to_string(),
        table_name: "orders".to_string(),
        start_date: start.to_string(),
        stop_date: stop.map(|s| s.to_string()),
    }
}

#[test]
fn end_to_end_snapshot_first_and_open_lower_bound() {
    let plan = plan_listing(date_aware("2024-01-01T00:00:00Z", None)).unwrap();
    let request = match plan {
        ListingPlan::List(r) => r,
        ListingPlan::Fixed(_) => panic!("expected a listing"),
    };
    assert_eq!(request.start, at(JAN_1));
    assert_eq!(request.stop, None);
    let mut listing = FileListing::new(request.start, request.stop);
    let page = vec![
        object("20240101T000000-0001.parquet", JAN_1),
        object("20240102T000000-0002.parquet", JAN_1 + DAY),
        object("LOAD00000001.parquet", JAN_1 - DAY),
    ];
    assert_eq!(listing.accept_page(&page, None), None);
    assert_eq!(
        listing.finish(),
        strings(&["LOAD00000001.parquet", "20240102T000000-0002.parquet"])
    );
}

#[test]
fn listing_follows_continuation_tokens() {
    let mut listing = FileListing::new(at(0), None);
    let first = vec![object("a-0001.parquet", 10)];
    assert_eq!(listing.accept_page(&first, Some("tok".to_string())), Some("tok".to_string()));
    let second = vec![object("b-0002.parquet", 20), object("LOAD01.parquet", 0)];
    assert_eq!(listing.accept_page(&second, None), None);
    assert_eq!(
        listing.finish(),
        strings(&["LOAD01.parquet", "a-0001.parquet", "b-0002.parquet"])
    );
}

#[test]
fn ordering_moves_all_snapshots_to_front() {
    let files = strings(&["c1", "c2", "c3", "LOAD1", "LOAD2"]);
    assert_eq!(order_for_apply(files), strings(&["LOAD1", "LOAD2", "c1", "c2", "c3"]));
    assert_eq!(order_for_apply(strings(&["c1", "c2"])), strings(&["c1", "c2"]));
    assert_eq!(order_for_apply(strings(&["LOAD1", "LOAD2"])), strings(&["LOAD1", "LOAD2"]));
    assert_eq!(order_for_apply(Vec::new()), Vec::<String>::new());
}

#[test]
fn ordering_is_a_rotation_by_snapshot_count() {
    let files = strings(&["LOAD1", "c1", "c2"]);
    assert_eq!(order_for_apply(files), strings(&["c2", "LOAD1", "c1"]));
}

#[test]
fn window_bounds_are_exclusive() {
    let start = at(100);
    let stop = Some(at(200));
    assert!(!is_in_window(&at(100), &start, &stop));
    assert!(is_in_window(&Timestamp { secs: 100, nanos: 1 }, &start, &stop));
    assert!(is_in_window(&at(150), &start, &stop));
    assert!(!is_in_window(&at(200), &start, &stop));
    assert!(!is_in_window(&at(50), &start, &stop));
    assert!(is_in_window(&at(5000), &start, &None));
    assert!(!is_in_window(&at(100), &start, &None));
}

#[test]
fn snapshot_files_ignore_the_window() {
    let start = at(100);
    let stop = Some(at(200));
    assert!(select_object("x/LOAD0001.parquet", &Some(at(10)), &start, &stop));
    assert!(select_object("x/LOAD0001.parquet", &None, &start, &stop));
    assert!(!select_object("x/2024-0001.parquet", &Some(at(10)), &start, &stop));
    assert!(!select_object("x/2024-0001.parquet", &None, &start, &stop));
    assert!(select_object("x/2024-0001.parquet", &Some(at(150)), &start, &stop));
}

#[test]
fn snapshot_marker_detection() {
    assert!(is_snapshot_key("LOAD00000001.parquet"));
    assert!(is_snapshot_key("prefix/db/LOAD"));
    assert!(!is_snapshot_key("20240101T000000-0001.parquet"));
    assert!(!is_snapshot_key("LOA"));
    assert!(!is_snapshot_key("load0001.parquet"));
    assert!(!is_snapshot_key(""));
}

#[test]
fn apply_mode_by_kind() {
    assert_eq!(apply_mode("LOAD00000001.parquet"), ApplyMode::Insert);
    assert_eq!(apply_mode("20240101T000000-0001.parquet"), ApplyMode::Upsert);
}

#[test]
fn absolute_path_bypasses_discovery() {
    let plan = plan_listing(LoadParquetFilesPayload::AbsolutePath("a/b/c.parquet".to_string()));
    match plan {
        Ok(ListingPlan::Fixed(v)) => assert_eq!(v, strings(&["a/b/c.parquet"])),
        _ => panic!("expected the given key"),
    }
}

#[test]
fn date_aware_plan_builds_prefix_and_cursor() {
    let plan = plan_listing(date_aware("2024-03-05T10:20:30Z", Some("2024-04-01T00:00:00Z")));
    let request = match plan {
        Ok(ListingPlan::List(r)) => r,
        _ => panic!("expected a listing"),
    };
    assert_eq!(request.bucket_name, "bucket");
    assert_eq!(request.prefix_path, "exports/db/public/orders/");
    assert_eq!(request.start_after, "exports/db/public/orders/2024/03/05/");
    assert_eq!(request.start, at(1_709_634_030));
    assert_eq!(request.stop, Some(at(1_711_929_600)));
}

#[test]
fn listing_request_pads_month_and_day() {
    let r = listing_request("b".to_string(), "p", "d", "s", "t", (2023, 11, 25), at(0), None);
    assert_eq!(r.prefix_path, "p/d/s/t/");
    assert_eq!(r.start_after, "p/d/s/t/2023/11/25/");
    let r = listing_request("b".to_string(), "p", "d", "s", "t", (-45, 1, 9), at(0), None);
    assert_eq!(r.start_after, "p/d/s/t/-45/01/09/");
}

#[test]
fn malformed_start_is_rejected() {
    assert!(matches!(
        plan_listing(date_aware("yesterday", None)),
        Err(DiscoveryError::InvalidStartDate)
    ));
}

#[test]
fn malformed_stop_is_rejected() {
    assert!(matches!(
        plan_listing(date_aware("2024-01-01T00:00:00Z", Some("tomorrow"))),
        Err(DiscoveryError::InvalidStopDate)
    ));
}
