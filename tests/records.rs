use ga_v4_flattener::records::{response_to_row_array, CellValue, Field, MetricTyping};
use ga_v4_flattener::types::{
    ColumnHeader, DateRangeValue, MetricHeader, MetricHeaderEntry, MetricType, Report, ReportData,
    ReportResponse, ReportRow,
};

fn strings(items: &[&str]) -> Vec<String> {
    items.iter().map(|s| s.to_string()).collect()
}

fn report(dimensions: &[&str], metrics: &[(&str, MetricType)], rows: &[(&[&str], &[&[&str]])]) -> Report {
    Report {
        column_header: ColumnHeader {
            dimensions: strings(dimensions),
            metric_header: MetricHeader {
                metric_header_entries: metrics
                    .iter()
                    .map(|(name, metric_type)| MetricHeaderEntry {
                        name: name.to_string(),
                        metric_type: *metric_type,
                    })
                    .collect(),
            },
        },
        data: ReportData {
            rows: rows
                .iter()
                .map(|(dims, ranges)| ReportRow {
                    dimensions: strings(dims),
                    metrics: ranges.iter().map(|values| DateRangeValue { values: strings(values) }).collect(),
                })
                .collect(),
            totals: vec![],
            row_count: Some(rows.len() as u32),
            minimums: None,
            maximums: None,
            samples_read_counts: None,
            sampling_space_sizes: None,
            is_data_golden: true,
        },
        next_page_token: None,
    }
}

fn no_dimensions() -> ReportResponse {
    ReportResponse { reports: vec![report(&[], &[("ga:sessions", MetricType::Integer)], &[(&[], &[&["44"]])])] }
}

fn no_rows() -> ReportResponse {
    ReportResponse {
        reports: vec![report(&["ga:deviceCategory"], &[("ga:sessions", MetricType::Integer)], &[])],
    }
}

fn single_dimension_and_metric() -> ReportResponse {
    ReportResponse {
        reports: vec![report(
            &["ga:deviceCategory"],
            &[("ga:sessions", MetricType::Integer)],
            &[(&["desktop"], &[&["43"]]), (&["mobile"], &[&["1"]])],
        )],
    }
}

fn multiple_dimensions_and_metrics() -> ReportResponse {
    ReportResponse {
        reports: vec![report(
            &["ga:deviceCategory", "ga:country"],
            &[("ga:sessions", MetricType::Integer), ("ga:bounces", MetricType::Integer)],
            &[
                (&["desktop", "Australia"], &[&["1", "1"]]),
                (&["desktop", "France"], &[&["39", "21"]]),
                (&["desktop", "United States"], &[&["3", "1"]]),
                (&["mobile", "Brazil"], &[&["1", "0"]]),
            ],
        )],
    }
}

fn multiple_reports() -> ReportResponse {
    let metrics: &[(&str, MetricType)] =
        &[("ga:sessions", MetricType::Integer), ("ga:bounces", MetricType::Integer)];
    ReportResponse {
        reports: vec![
            report(
                &["ga:deviceCategory"],
                metrics,
                &[(&["desktop"], &[&["25", "17"]]), (&["mobile"], &[&["2", "2"]])],
            ),
            report(
                &["ga:country"],
                metrics,
                &[
                    (&["Azerbaijan"], &[&["1", "0"]]),
                    (&["France"], &[&["18", "11"]]),
                    (&["Japan"], &[&["4", "4"]]),
                    (&["Switzerland"], &[&["1", "1"]]),
                    (&["United States"], &[&["3", "3"]]),
                ],
            ),
        ],
    }
}

fn multiple_date_ranges() -> ReportResponse {
    ReportResponse {
        reports: vec![report(
            &["ga:browser"],
            &[("ga:avgTimeOnPage", MetricType::Time), ("ga:pageviewsPerSession", MetricType::Float)],
            &[
                (&["Chrome"], &[&["108.1733", "2.93126"], &["129.7071651", "3.60975609"]]),
                (&["Edge"], &[&["51.794117", "6.6666667"], &["210.866667", "2.875"]]),
                (&["Firefox"], &[&["123.657142", "2.09375"], &["75.333333", "1.5"]]),
            ],
        )],
    }
}

fn large_report() -> ReportResponse {
    let names: Vec<String> = (0..500).map(|i| format!("page-{}", i)).collect();
    let counts: Vec<String> = (0..500).map(|i| format!("{}", i * 7)).collect();
    let dims: Vec<[&str; 1]> = names.iter().map(|n| [n.as_str()]).collect();
    let values: Vec<[&str; 2]> = counts.iter().map(|c| [c.as_str(), "1"]).collect();
    let ranges: Vec<[&[&str]; 1]> = values.iter().map(|v| [&v[..]]).collect();
    let rows: Vec<(&[&str], &[&[&str]])> =
        dims.iter().zip(ranges.iter()).map(|(d, r)| (&d[..], &r[..])).collect();
    ReportResponse {
        reports: vec![report(
            &["ga:pagePath"],
            &[("ga:pageviews", MetricType::Integer), ("ga:entrances", MetricType::Integer)],
            &rows,
        )],
    }
}

enum Want<'a> {
    Text(&'a str),
    Int(i64),
    Float(f64),
}

use Want::{Float, Int, Text};

fn check_record(record: &Vec<Field>, expected: &[(&str, Want)]) {
    assert_eq!(record.len(), expected.len());
    for (field, (name, want)) in record.iter().zip(expected.iter()) {
        assert_eq!(field.name, *name);
        match (&field.value, want) {
            (CellValue::Text(t), Text(w)) => assert_eq!(t, w),
            (CellValue::Number { text: _, number }, Int(w)) => assert_eq!(number.as_i64(), Some(*w)),
            (CellValue::Number { text: _, number }, Float(w)) => assert_eq!(number.as_f64(), Some(*w)),
            (other, _) => panic!("unexpected value in column {}: {:?}", name, other),
        }
    }
}

fn check_output(output: &Vec<Vec<Vec<Field>>>, expected: &[&[&[(&str, Want)]]]) {
    assert_eq!(output.len(), expected.len());
    for (records, want) in output.iter().zip(expected.iter()) {
        assert_eq!(records.len(), want.len());
        for (record, fields) in records.iter().zip(want.iter()) {
            check_record(record, fields);
        }
    }
}

#[test]
fn to_row_array_no_rows() {
    let parsed_response = no_rows();
    let output = response_to_row_array(&parsed_response, MetricTyping::Numeric).unwrap();
    check_output(&output, &[&[]]);
}

#[test]
fn to_row_array_no_dimensions() {
    let parsed_response = no_dimensions();
    let output = response_to_row_array(&parsed_response, MetricTyping::Numeric).unwrap();
    check_output(&output, &[&[&[("ga:sessions", Int(44))]]]);
}

#[test]
fn to_row_array_single_dimension_and_metric() {
    let parsed_response = single_dimension_and_metric();
    let output = response_to_row_array(&parsed_response, MetricTyping::Numeric).unwrap();
    check_output(
        &output,
        &[&[
            &[("ga:deviceCategory", Text("desktop")), ("ga:sessions", Int(43))],
            &[("ga:deviceCategory", Text("mobile")), ("ga:sessions", Int(1))],
        ]],
    );
}

#[test]
fn to_row_array_multiple_dimensions_and_metrics() {
    let parsed_response = multiple_dimensions_and_metrics();
    let output = response_to_row_array(&parsed_response, MetricTyping::Numeric).unwrap();
    check_output(
        &output,
        &[&[
            &[
                ("ga:deviceCategory", Text("desktop")),
                ("ga:country", Text("Australia")),
                ("ga:sessions", Int(1)),
                ("ga:bounces", Int(1)),
            ],
            &[
                ("ga:deviceCategory", Text("desktop")),
                ("ga:country", Text("France")),
                ("ga:sessions", Int(39)),
                ("ga:bounces", Int(21)),
            ],
            &[
                ("ga:deviceCategory", Text("desktop")),
                ("ga:country", Text("United States")),
                ("ga:sessions", Int(3)),
                ("ga:bounces", Int(1)),
            ],
            &[
                ("ga:deviceCategory", Text("mobile")),
                ("ga:country", Text("Brazil")),
                ("ga:sessions", Int(1)),
                ("ga:bounces", Int(0)),
            ],
        ]],
    );
}

#[test]
fn to_row_array_large_report() {
    let parsed_response = large_report();
    assert!(response_to_row_array(&parsed_response, MetricTyping::Numeric).is_ok())
}

#[test]
fn to_row_array_multiple_reports() {
    let deserialized_response = multiple_reports();
    let output = response_to_row_array(&deserialized_response, MetricTyping::Numeric).unwrap();
    check_output(
        &output,
        &[
            &[
                &[("ga:deviceCategory", Text("desktop")), ("ga:sessions", Int(25)), ("ga:bounces", Int(17))],
                &[("ga:deviceCategory", Text("mobile")), ("ga:sessions", Int(2)), ("ga:bounces", Int(2))],
            ],
            &[
                &[("ga:country", Text("Azerbaijan")), ("ga:sessions", Int(1)), ("ga:bounces", Int(0))],
                &[("ga:country", Text("France")), ("ga:sessions", Int(18)), ("ga:bounces", Int(11))],
                &[("ga:country", Text("Japan")), ("ga:sessions", Int(4)), ("ga:bounces", Int(4))],
                &[("ga:country", Text("Switzerland")), ("ga:sessions", Int(1)), ("ga:bounces", Int(1))],
                &[("ga:country", Text("United States")), ("ga:sessions", Int(3)), ("ga:bounces", Int(3))],
            ],
        ],
    );
}

#[test]
fn to_row_array_multiple_date_ranges() {
    let parsed_response = multiple_date_ranges();
    let output = response_to_row_array(&parsed_response, MetricTyping::Numeric).unwrap();
    check_output(
        &output,
        &[&[
            &[
                ("ga:browser", Text("Chrome")),
                ("ga:avgTimeOnPage", Float(108.1733)),
                ("ga:pageviewsPerSession", Float(2.93126)),
                ("ga:avgTimeOnPage_2", Float(129.7071651)),
                ("ga:pageviewsPerSession_2", Float(3.60975609)),
            ],
            &[
                ("ga:browser", Text("Edge")),
                ("ga:avgTimeOnPage", Float(51.794117)),
                ("ga:pageviewsPerSession", Float(6.6666667)),
                ("ga:avgTimeOnPage_2", Float(210.866667)),
                ("ga:pageviewsPerSession_2", Float(2.875)),
            ],
            &[
                ("ga:browser", Text("Firefox")),
                ("ga:avgTimeOnPage", Float(123.657142)),
                ("ga:pageviewsPerSession", Float(2.09375)),
                ("ga:avgTimeOnPage_2", Float(75.333333)),
                ("ga:pageviewsPerSession_2", Float(1.5)),
            ],
        ]],
    );
}

#[test]
fn response_to_row_array_no_dimensions() {
    let parsed_response = no_dimensions();
    let output = response_to_row_array(&parsed_response, MetricTyping::Text).unwrap();
    check_output(&output, &[&[&[("ga:sessions", Text("44"))]]]);
}

#[test]
fn response_to_row_array_single_dimension_and_metric() {
    let parsed_response = single_dimension_and_metric();
    let output = response_to_row_array(&parsed_response, MetricTyping::Text).unwrap();
    check_output(
        &output,
        &[&[
            &[("ga:deviceCategory", Text("desktop")), ("ga:sessions", Text("43"))],
            &[("ga:deviceCategory", Text("mobile")), ("ga:sessions", Text("1"))],
        ]],
    );
}

#[test]
fn response_to_row_array_multiple_dimensions_and_metrics() {
    let parsed_response = multiple_dimensions_and_metrics();
    let output = response_to_row_array(&parsed_response, MetricTyping::Text).unwrap();
    check_output(
        &output,
        &[&[
            &[
                ("ga:deviceCategory", Text("desktop")),
                ("ga:country", Text("Australia")),
                ("ga:sessions", Text("1")),
                ("ga:bounces", Text("1")),
            ],
            &[
                ("ga:deviceCategory", Text("desktop")),
                ("ga:country", Text("France")),
                ("ga:sessions", Text("39")),
                ("ga:bounces", Text("21")),
            ],
            &[
                ("ga:deviceCategory", Text("desktop")),
                ("ga:country", Text("United States")),
                ("ga:sessions", Text("3")),
                ("ga:bounces", Text("1")),
            ],
            &[
                ("ga:deviceCategory", Text("mobile")),
                ("ga:country", Text("Brazil")),
                ("ga:sessions", Text("1")),
                ("ga:bounces", Text("0")),
            ],
        ]],
    );
}

#[test]
fn response_to_row_array_large_report() {
    let parsed_response = large_report();
    assert!(response_to_row_array(&parsed_response, MetricTyping::Text).is_ok())
}
