use rs_route::config::{ColumnConfig, OutputFormat};
use rs_route::io::csv::{
    convert_flows, csv_header, flow_column, load_external_flows, CsvRows, FlowColumn, FlowError,
    FlowFault,
};
use rs_route::io::flows::{
    bmi_simulation_span, catchment_name, csv_simulation_span, depth_units,
    resolve_depth_conversion, span_text, DepthUnits, FlowProvider, FlowSource, LoadRequest,
    SpanError, SpanSource, StartTime,
};
use rs_route::io::results::{downsample_results, zero_results, SimulationResults};
use rs_route::text::{
    join_path, parse_count, push_comma_list, push_decimal, same_text, trim, white_space,
};

#[test]
fn numbers_are_written_and_read_back() {
    for n in [0usize, 7, 10, 99, 100, 3600, 4294967295, usize::MAX] {
        let mut text = String::from("n=");
        push_decimal(&mut text, n);
        assert_eq!(text, format!("n={}", n));
        assert_eq!(parse_count(&text[2..]), Some(n));
    }
    let mut text = String::new();
    push_comma_list(&mut text, &vec![60, 72, 75]);
    assert_eq!(text, "60, 72, 75");
    let mut text = String::new();
    push_comma_list(&mut text, &vec![]);
    assert_eq!(text, "");
}

#[test]
fn counts_are_read_as_std_reads_them() {
    for text in [
        "", "+", "-", "0", "+5", "-5", "007", " 5", "5 ", "5.0", "1e3", "18446744073709551615",
        "18446744073709551616", "99999999999999999999999", "++1", "٣",
    ] {
        assert_eq!(parse_count(text), text.parse::<usize>().ok(), "{:?}", text);
    }
}

#[test]
fn paths_join_as_std_joins_them() {
    for (base, part) in [
        ("root", "config"),
        ("root/", "config"),
        ("", "config"),
        ("/", "config"),
        ("a/b", "c/d"),
        ("root", "/abs"),
        ("root", ""),
    ] {
        let want = std::path::Path::new(base).join(part);
        assert_eq!(join_path(base, part), want.to_str().unwrap(), "{:?} {:?}", base, part);
    }
}

#[test]
fn white_space_is_that_of_std() {
    for v in 0..=0x10ffffu32 {
        if let Some(c) = char::from_u32(v) {
            assert_eq!(white_space(c), c.is_whitespace(), "U+{:04X}", v);
        }
    }
    for text in ["", " ", "  1.5\t", "x", "\u{3000}a b\u{85}", "a\n"] {
        assert_eq!(trim(text), text.trim(), "{:?}", text);
    }
    assert!(same_text("route", "route"));
    assert!(!same_text("route", "Route"));
}

#[test]
fn column_names_of_the_hydrofabric() {
    for columns in [ColumnConfig::new(), ColumnConfig::default()] {
        assert_eq!(columns.key, "id");
        assert_eq!(columns.downstream, "toid");
        assert_eq!(columns.dx, "Length_m");
        assert_eq!(columns.n, "n");
        assert_eq!(columns.ncc, "nCC");
        assert_eq!(columns.s0, "So");
        assert_eq!(columns.bw, "BtmWdth");
        assert_eq!(columns.tw, "TopWdth");
        assert_eq!(columns.twcc, "TopWdthCC");
        assert_eq!(columns.cs, "ChSlp");
    }
    assert_ne!(OutputFormat::Csv, OutputFormat::Both);
    assert_ne!(OutputFormat::NetCdf, OutputFormat::Both);
}

const AREA: f32 = 14.710_95;

fn to_flow(text: &str) -> Option<f32> {
    text.parse::<f32>().ok().map(|ql| (ql * (AREA * 1_000_000.0)) / 3600.0)
}

fn load(content: &str, var_name: Option<&str>) -> Result<Vec<f32>, FlowError> {
    load_external_flows(Some(content.as_bytes()), var_name, &to_flow)
}

/// Reads every field as text, all of them trimmed.
fn load_reference(content: &str, var_name: Option<&str>) -> Vec<f32> {
    let mut rdr = csv::ReaderBuilder::new()
        .has_headers(true)
        .delimiter(b',')
        .flexible(true)
        .trim(csv::Trim::All)
        .from_reader(content.as_bytes());
    let index = match var_name {
        Some(name) => rdr.headers().unwrap().iter().position(|h| h == name).unwrap_or(2),
        None => 2,
    };
    rdr.records().map(|r| to_flow(r.unwrap().get(index).unwrap().trim()).unwrap()).collect()
}

fn assert_matches_reference(content: &str, var_name: Option<&str>, rows: usize) {
    let want = load_reference(content, var_name);
    let got = load(content, var_name).unwrap();
    assert_eq!(want.len(), rows);
    assert_eq!(want.len(), got.len());
    for (i, (w, g)) in want.iter().zip(got.iter()).enumerate() {
        assert_eq!(w.to_bits(), g.to_bits(), "row {} differs", i);
    }
}

/// A catchment file with a real header row, read by column name.
#[test]
fn test_matches_reference_named_column() {
    let content = "Time Step,Time,Q_IN, Q_OUT \n0,2010-01-01 00:00:00,9,0.001\n\
                   1,2010-01-01 01:00:00,9, 0.0025 \n";
    assert_matches_reference(content, Some("Q_OUT"), 2);
    assert_eq!(load(content, Some("Q_OUT")).unwrap()[0], (0.001 * (AREA * 1_000_000.0)) / 3600.0);
}

/// A nexus file with no header and space-padded fields, so the column lookup falls back to
/// index 2 and per-field trimming matters.
#[test]
fn test_matches_reference_headerless_padded() {
    let content = "0, 2010-01-01 00:00:00,  0.5\n1, 2010-01-01 01:00:00,  0.25\n\
                   2, 2010-01-01 02:00:00,  0.125\n";
    assert_matches_reference(content, Some("Q_OUT"), 2);
    assert_matches_reference(content, None, 2);
}

/// A variable that no header names is read as if none were named.
#[test]
fn unknown_variables_fall_back_to_the_third_column() {
    for content in ["a,b,c,d\n1,2,3,4\n5,6,7,8\n", "a,b,c\n1,2\n", "a,b,c\n1,2,x\n"] {
        let named = load(content, Some("Q_OUT"));
        let unnamed = load(content, None);
        assert_eq!(format!("{:?}", named), format!("{:?}", unnamed));
    }
    let flows = load("a,b,c,d\n1,2,3,4\n", Some("Q_OUT")).unwrap();
    assert_eq!(flows, vec![to_flow("3").unwrap()]);
}

#[test]
fn quoted_fields_are_read_as_csv() {
    let content = "a,\"Q_OUT\",c\r\n\"x,y\",\"1.5\",z\r\n1,2.5,3\r\n";
    assert_matches_reference(content, Some("Q_OUT"), 2);
}

#[test]
fn the_first_of_two_equal_headers_counts() {
    let flows = load("Q_OUT,Q_OUT,Q_OUT\n1,2,3\n", Some("Q_OUT")).unwrap();
    assert_eq!(flows, vec![to_flow("1").unwrap()]);
}

/// A missing file is not an error, and yields no flows.
#[test]
fn test_missing_file_returns_empty() {
    let none: Result<Vec<f32>, FlowError> = load_external_flows(None, Some("Q_OUT"), &to_flow);
    assert!(none.unwrap().is_empty());
    assert!(load("", Some("Q_OUT")).unwrap().is_empty());
}

#[test]
fn the_first_fault_is_reported() {
    match load("a,b,c\n1,2,3\n1,2\n1,2,x\n", None) {
        Err(FlowError::Fault(f)) => {
            assert_eq!(f, FlowFault::MissingColumn { column: 2, record: 1 })
        }
        other => panic!("got {:?}", other),
    }
    match load("a,b,c\n1,2,3\n1,2, wet \n1,2\n", None) {
        Err(FlowError::NotANumber { text, record }) => {
            assert_eq!(text, "wet");
            assert_eq!(record, 1);
        }
        other => panic!("got {:?}", other),
    }
    match load_external_flows(Some(b"a,b,c\n1,2,\xff\n"), None, &to_flow) {
        Err(FlowError::Fault(f)) => assert_eq!(f, FlowFault::NotUtf8 { record: 0 }),
        other => panic!("got {:?}", other),
    }
}

fn row(fields: &[&str]) -> Option<Vec<Vec<u8>>> {
    Some(fields.iter().map(|f| f.as_bytes().to_vec()).collect())
}

#[test]
fn rows_that_cannot_be_read_are_faults() {
    let rows = CsvRows { headers: None, records: vec![row(&["1", "2", "3"])] };
    let column = flow_column(&rows, Some("Q_OUT"));
    assert_eq!(column.fault, Some(FlowFault::Headers));
    assert!(column.texts.is_empty());
    let column = flow_column(&rows, None);
    assert_eq!(column.fault, None);
    assert_eq!(column.texts, vec!["3".to_string()]);

    let rows = CsvRows {
        headers: row(&["a", "Q_OUT"]),
        records: vec![row(&["x", " 4 "]), None, row(&["x", "5"])],
    };
    let column = flow_column(&rows, Some("Q_OUT"));
    assert_eq!(column.texts, vec!["4".to_string()]);
    assert_eq!(column.fault, Some(FlowFault::Record { record: 1 }));
}

#[test]
fn a_bad_number_comes_before_a_later_fault() {
    let column = FlowColumn {
        texts: vec!["1".to_string(), "?".to_string()],
        fault: Some(FlowFault::Record { record: 2 }),
    };
    assert!(matches!(
        convert_flows(column, &to_flow),
        Err(FlowError::NotANumber { record: 1, .. })
    ));
}

#[test]
fn output_header() {
    assert_eq!(csv_header(), ["step", "feature_id", "flow", "velocity", "depth"]);
}

#[test]
fn catchments_are_named_by_id() {
    assert_eq!(catchment_name(486888), "cat-486888");
    assert_eq!(catchment_name(0), "cat-0");
}

fn csv_source() -> FlowSource {
    FlowSource::Csv { dir: "outputs/ngen".to_string(), variable: Some("Q_OUT".to_string()) }
}

fn bmi_source() -> FlowSource {
    FlowSource::Bmi {
        data_dir: "data".to_string(),
        config: Some("data/other.json".to_string()),
        variable: "Q_OUT".to_string(),
    }
}

#[test]
fn sources_can_be_cloned() {
    match bmi_source().clone() {
        FlowSource::Bmi { data_dir, config, variable } => {
            assert_eq!(data_dir, "data");
            assert_eq!(config.as_deref(), Some("data/other.json"));
            assert_eq!(variable, "Q_OUT");
        }
        other => panic!("got {:?}", other),
    }
}

#[test]
fn sources_say_where_the_flows_are() {
    let provider: FlowProvider<u8> = csv_source().provider();
    match provider.load(486888) {
        LoadRequest::ReadCsv { path, variable } => {
            assert_eq!(path, "outputs/ngen/cat-486888.csv");
            assert_eq!(variable.as_deref(), Some("Q_OUT"));
        }
        other => panic!("got {:?}", other),
    }
    match csv_source().simulation_span(7) {
        SpanSource::CsvFile { path } => assert_eq!(path, "outputs/ngen/cat-7.csv"),
        other => panic!("got {:?}", other),
    }
    match bmi_source().simulation_span(7) {
        SpanSource::Models { data_dir, config } => {
            assert_eq!(data_dir, "data");
            assert_eq!(config.as_deref(), Some("data/other.json"));
        }
        other => panic!("got {:?}", other),
    }
}

#[test]
fn units_are_resolved_once() {
    let provider: FlowProvider<u8> = bmi_source().provider();
    match &provider {
        FlowProvider::Bmi { data_dir, config, variable, to_depth_per_hour } => {
            assert_eq!(data_dir, "data");
            assert_eq!(config.as_deref(), Some("data/other.json"));
            assert_eq!(variable, "Q_OUT");
            assert!(to_depth_per_hour.is_none());
        }
        other => panic!("got {:?}", other),
    }
    assert!(matches!(
        provider.load(3),
        LoadRequest::RunModels { location, variable, resolve_units: true }
            if location == "cat-3" && variable == "Q_OUT"
    ));
    let provider = provider.with_conversion(5);
    assert!(matches!(provider.load(3), LoadRequest::RunModels { resolve_units: false, .. }));
    let provider = provider.with_conversion(6);
    assert!(matches!(provider, FlowProvider::Bmi { to_depth_per_hour: Some(5), .. }));
}

#[test]
fn units_that_are_not_reported_are_taken_as_the_routers() {
    for units in [None, Some("")] {
        match depth_units("Q_OUT", units) {
            DepthUnits::Assumed { warning } => assert_eq!(
                warning,
                "Warning: model does not report units for 'Q_OUT'; assuming m h-1"
            ),
            other => panic!("got {:?}", other),
        }
    }
    assert!(matches!(
        depth_units("Q_OUT", Some("mm h-1")),
        DepthUnits::Reported { units } if units == "mm h-1"
    ));
    assert_eq!(resolve_depth_conversion("Q_OUT", "mm h-1", 3, None).unwrap(), 3);
    assert_eq!(
        resolve_depth_conversion("Q_OUT", "kg", 3, Some("no such unit")).unwrap_err().message,
        "Cannot convert 'Q_OUT' from kg to m h-1: no such unit"
    );
}

const START_EPOCH: i64 = 1_262_304_000;

#[test]
fn the_period_is_read_from_a_sample_file() {
    let mut content = String::from("Time Step,Time,Q_OUT\n");
    for step in 0..25 {
        content.push_str(&format!("{},2010-01-01 00:00:00,0.5\n", step));
    }
    let (steps, start) = csv_simulation_span(content.as_bytes()).unwrap();
    assert_eq!(steps, 24);
    assert_eq!(start, StartTime { seconds: START_EPOCH, nanos: 0 });

    let (steps, start) = csv_simulation_span(b"h\r\n0,2010-01-01 01:00:01\r\n").unwrap();
    assert_eq!(steps, 0);
    assert_eq!(start, StartTime { seconds: START_EPOCH + 3601, nanos: 0 });
}

#[test]
fn leap_seconds_are_kept() {
    let (_, start) = csv_simulation_span(b"h\n0,2015-06-30 23:59:60,1\n").unwrap();
    assert_eq!(start, StartTime { seconds: 1_435_708_799, nanos: 1_000_000_000 });
}

#[test]
fn a_sample_file_without_a_period_is_refused() {
    assert!(matches!(csv_simulation_span(b""), Err(SpanError::Empty)));
    assert!(matches!(csv_simulation_span(b"Time Step,Time\n"), Err(SpanError::OnlyHeader)));
    assert!(matches!(csv_simulation_span(b"\n"), Err(SpanError::OnlyHeader)));
    assert!(matches!(csv_simulation_span(b"h\nno comma\n"), Err(SpanError::NoTime)));
    assert!(matches!(csv_simulation_span(b"h\n\n"), Err(SpanError::NoTime)));
    assert!(matches!(csv_simulation_span(b"h\n\xff,1\n"), Err(SpanError::NotUtf8)));
    match csv_simulation_span(b"h\n0,2010-01-01 00:00:00\r") {
        Err(SpanError::InvalidTime { text }) => assert_eq!(text, "2010-01-01 00:00:00\r"),
        other => panic!("got {:?}", other),
    }
    match csv_simulation_span(b"h\n0, 2010-01-01,x\n") {
        Err(SpanError::InvalidTime { text }) => assert_eq!(text, " 2010-01-01"),
        other => panic!("got {:?}", other),
    }
}

#[test]
fn the_text_of_the_time_is_the_second_field() {
    for content in ["h\n0,a b,c\nx\n", "h\r\n0,a b\r\n\r\n", "h\n,a b,,,\n\u{e9}"] {
        let (steps, text) = span_text(content.as_bytes()).unwrap();
        assert_eq!(steps, content.lines().count() - 2, "{:?}", content);
        assert_eq!(Some(text.as_str()), content.lines().nth(1).unwrap().split(',').nth(1));
    }
}

#[test]
fn models_start_at_an_epoch() {
    let (steps, start) = bmi_simulation_span(START_EPOCH, 24).unwrap();
    assert_eq!(steps, 24);
    assert_eq!(start, StartTime { seconds: START_EPOCH, nanos: 0 });

    for edge in [-8_334_601_228_800i64, 8_210_266_876_799] {
        assert_eq!(bmi_simulation_span(edge, 1).unwrap().1, StartTime { seconds: edge, nanos: 0 });
    }
    for beyond in [-8_334_601_228_801i64, 8_210_266_876_800, i64::MIN, i64::MAX] {
        match bmi_simulation_span(beyond, 1) {
            Err(SpanError::InvalidStart { epoch }) => assert_eq!(epoch, beyond),
            other => panic!("got {:?}", other),
        }
    }
}

fn series(len: usize) -> SimulationResults<u32> {
    SimulationResults {
        feature_id: 9,
        flow_data: (0..len as u32).collect(),
        velocity_data: (100..100 + len as u32).collect(),
        depth_data: (200..200 + len as u32).collect(),
    }
}

#[test]
fn the_last_of_each_block_is_kept() {
    let out = downsample_results(series(8), 3);
    assert_eq!(out.feature_id, 9);
    assert_eq!(out.flow_data, vec![2, 5]);
    assert_eq!(out.velocity_data, vec![102, 105]);
    assert_eq!(out.depth_data, vec![202, 205]);

    for keep in [0, 1] {
        assert_eq!(downsample_results(series(4), keep).flow_data, vec![0, 1, 2, 3]);
    }
    assert!(downsample_results(series(2), 3).flow_data.is_empty());
}

#[test]
fn zero_results_are_all_zero() {
    let out = zero_results(5, 3, 0u8);
    assert_eq!(out.feature_id, 5);
    assert_eq!(out.flow_data, vec![0, 0, 0]);
    assert_eq!(out.velocity_data, vec![0, 0, 0]);
    assert_eq!(out.depth_data, vec![0, 0, 0]);
}

/// One output entry per hour, taken from the internal timestep that ends the hour.
#[test]
fn output_is_hourly_for_every_accepted_timestep() {
    for dt in (1..=3600).filter(|dt| 3600 % dt == 0) {
        let per_hour = 3600 / dt;
        let out = downsample_results(series(5 * per_hour), per_hour);
        assert_eq!(out.flow_data.len(), 5);
        for (hour, &t) in out.flow_data.iter().enumerate() {
            assert_eq!((t as usize + 1) * dt, (hour + 1) * 3600);
        }
    }
}
