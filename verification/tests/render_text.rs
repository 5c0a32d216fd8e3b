use lilypond_studio::render::{
    attribute_value, collected_outcome, combine_streams, combined_output, failure_detail,
    job_dir_name, split_dimension, svg_open_tag, view_box_field, LengthUnit, NO_PAGES_MESSAGE,
};

#[test]
fn job_directories_are_zero_padded() {
    assert_eq!(job_dir_name(0), "render-0000");
    assert_eq!(job_dir_name(42), "render-0042");
    assert_eq!(job_dir_name(12345), "render-12345");
    assert_eq!(job_dir_name(7), format!("render-{:04}", 7));
}

#[test]
fn combined_output_joins_non_empty_streams() {
    assert_eq!(combined_output(b"", b""), "");
    assert_eq!(combined_output(b"  out \n", b" \n"), "out");
    assert_eq!(combined_output(b"", b"\terr\n"), "err");
    assert_eq!(combined_output(b"out\n", b"err\n"), "out\nerr");
    assert_eq!(combined_output(b"ok\xff", b""), "ok\u{FFFD}");
    assert_eq!(combine_streams(" a ", " b "), "a\nb");
}

const TAG: &str = r#"<svg xmlns="http://www.w3.org/2000/svg" version="1.2" width="210.00mm" height="297.00mm" viewBox="0 0 119.5016 169.0094""#;

#[test]
fn svg_open_tag_stops_at_the_first_close() {
    assert_eq!(svg_open_tag("<svg a=\"1\">\n<g/>"), Some("<svg a=\"1\""));
    assert_eq!(svg_open_tag("<svg"), None);
    assert_eq!(svg_open_tag("<g></g>"), None);
    let doc = "<?xml version=\"1.0\" standalone=\"no\"?>\n<svg xmlns=\"http://www.w3.org/2000/svg\" width=\"100px\" height=\"50px\">...</svg>";
    let tag = svg_open_tag(doc).unwrap();
    assert_eq!(tag, "<svg xmlns=\"http://www.w3.org/2000/svg\" width=\"100px\" height=\"50px\"");
    assert_eq!(attribute_value(tag, "width"), Some("100px"));
    assert_eq!(split_dimension(attribute_value(tag, "height").unwrap()), Some(("50", LengthUnit::Px)));
}

#[test]
fn attributes_and_view_box_fields_are_read() {
    assert_eq!(attribute_value(TAG, "width"), Some("210.00mm"));
    assert_eq!(attribute_value(TAG, "height"), Some("297.00mm"));
    assert_eq!(attribute_value(TAG, "depth"), None);
    assert_eq!(attribute_value("<svg width=\"12", "width"), None);
    assert_eq!(view_box_field(TAG, 2), Some("119.5016"));
    assert_eq!(view_box_field(TAG, 3), Some("169.0094"));
    assert_eq!(view_box_field(TAG, 4), None);
    assert_eq!(view_box_field("<svg", 2), None);
}

#[test]
fn dimensions_split_into_number_and_unit() {
    assert_eq!(split_dimension("210.00mm"), Some(("210.00", LengthUnit::Mm)));
    assert_eq!(split_dimension(" 12 pt "), Some(("12", LengthUnit::Pt)));
    assert_eq!(split_dimension("5"), Some(("5", LengthUnit::Px)));
    assert_eq!(split_dimension("5px"), Some(("5", LengthUnit::Px)));
    assert_eq!(split_dimension("1pc"), Some(("1", LengthUnit::Pc)));
    assert_eq!(split_dimension("2.54cm"), Some(("2.54", LengthUnit::Cm)));
    assert_eq!(split_dimension("1in"), Some(("1", LengthUnit::In)));
    assert_eq!(split_dimension("3em"), None);
}

#[test]
fn failed_runs_report_their_log_or_status() {
    assert_eq!(failure_detail(String::new(), "exit status: 1"), "lilypond exited with status exit status: 1");
    assert_eq!(failure_detail("error: bad".to_string(), "exit status: 1"), "error: bad");
}

#[test]
fn a_run_without_pages_is_an_error() {
    assert_eq!(collected_outcome(Vec::<u8>::new(), "log".to_string()), Err(NO_PAGES_MESSAGE.to_string()));
    assert_eq!(collected_outcome(vec![1u8, 2], "log".to_string()), Ok((vec![1u8, 2], "log".to_string())));
}
