use brichka::filter_excluded_sections;

#[test]
fn input_without_markers_is_returned_byte_identical() {
    let input = "select 1;\n  select 2;\r\n\nselect 3;\n";
    assert_eq!(filter_excluded_sections(input), input);
}

#[test]
fn empty_input_stays_empty() {
    assert_eq!(filter_excluded_sections(""), "");
}

#[test]
fn unterminated_exclude_drops_everything_after_it() {
    let input = "keep me\n// brichka: exclude\ndrop me\ndrop me too";
    assert_eq!(filter_excluded_sections(input), "keep me");
}

#[test]
fn exclude_immediately_followed_by_include_removes_nothing_else() {
    let input = "first\n// brichka: exclude\n// brichka: include\nlast";
    assert_eq!(filter_excluded_sections(input), "first\nlast");
}

#[test]
fn section_between_markers_is_removed() {
    let input = "a\n// brichka: exclude\nb\nc\n// brichka: include\nd";
    assert_eq!(filter_excluded_sections(input), "a\nd");
}

#[test]
fn markers_are_compared_after_trimming() {
    let input = "a\n   // brichka: exclude\t\nb\n\t// brichka: include  \nc";
    assert_eq!(filter_excluded_sections(input), "a\nc");
}

#[test]
fn last_marker_wins_without_nesting() {
    let input = "// brichka: exclude\n// brichka: exclude\nx\n// brichka: include\ny";
    assert_eq!(filter_excluded_sections(input), "y");
}

#[test]
fn line_resembling_marker_is_not_a_marker() {
    let input = "// brichka: excluded\nx";
    assert_eq!(filter_excluded_sections(input), input);
}
