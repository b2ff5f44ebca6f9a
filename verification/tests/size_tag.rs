use tiltak_interface::size_tag::extract_size;
use tiltak_interface::size_tag::ApiError;

#[test]
fn size_is_read_from_its_tag() {
    assert_eq!(extract_size("[Size \"6\"]"), Ok(6));
    assert_eq!(extract_size("[Event \"x\"]\r\n[Size \"5\"]\r\n\r\n1. a1 e5"), Ok(5));
    assert_eq!(extract_size("  [sIZe 5]"), Ok(5));
    assert_eq!(extract_size("[SizeX1Y2]"), Ok(12));
}

#[test]
fn size_is_read_back() {
    for size in [0, 4, 6, 17, usize::MAX] {
        assert_eq!(extract_size(&format!("[Size \"{size}\"]\nanything [Size \"3\"]")), Ok(size));
    }
}

#[test]
fn first_size_tag_counts() {
    assert_eq!(extract_size("[Size \"5\"]\n[Size \"6\"]"), Ok(5));
}

#[test]
fn other_lines_are_passed_over() {
    let tag = "[Size \"6\"]";
    for line in ["", "Size 5", "[ Size 5]", "[Siz 5]", "x[Size 5]", "[Komi \"2\"]\r", "[sİze 5]"] {
        assert_eq!(extract_size(&format!("{line}\n{tag}")), extract_size(tag));
    }
}

#[test]
fn missing_and_malformed_tags_are_refused() {
    assert_eq!(extract_size(""), Err(ApiError::MissingSizeTag));
    assert_eq!(extract_size("1. a1 e5"), Err(ApiError::MissingSizeTag));
    assert_eq!(extract_size("[Size \"five\"]"), Err(ApiError::InvalidSizeTag));
    assert_eq!(extract_size("[Size \"18446744073709551616\"]"), Err(ApiError::InvalidSizeTag));
    assert_eq!(extract_size("[Size \"x\"]\n[Size \"5\"]"), Err(ApiError::InvalidSizeTag));
}

#[test]
fn refusals_are_reported() {
    assert_eq!(ApiError::UnsupportedSize(7).message(), "Unsupported board size: 7");
    assert_eq!(ApiError::InvalidSizeTag.message(), "Invalid value in Size tag");
    assert_eq!(ApiError::MissingSizeTag.message(), "PTN is missing a Size tag");
    assert_eq!(ApiError::Refused("bad move".to_string()).message(), "bad move");
}
