use quicklendx::source_scan::contains_unsafe_keyword;

#[test]
fn keyword_detector_matches_unsafe_block() {
    assert!(contains_unsafe_keyword("    unsafe {"));
}

#[test]
fn keyword_detector_matches_unsafe_fn() {
    assert!(contains_unsafe_keyword("pub unsafe fn transmute_ptr()"));
}

#[test]
fn keyword_detector_matches_unsafe_impl() {
    assert!(contains_unsafe_keyword("unsafe impl Send for Foo {}"));
}

#[test]
fn keyword_detector_matches_unsafe_trait() {
    assert!(contains_unsafe_keyword("pub unsafe trait RawAccess {}"));
}

#[test]
fn keyword_detector_does_not_match_identifier() {
    assert!(!contains_unsafe_keyword("let unsafe_counter = 0;"));
}

#[test]
fn keyword_detector_does_not_match_suffix() {
    assert!(!contains_unsafe_keyword("fn is_unsafe_mode()"));
}

#[test]
fn keyword_detector_does_not_match_prefix() {
    assert!(!contains_unsafe_keyword("fn unsafe_things()"));
}

#[test]
fn keyword_detector_matches_standalone_word() {
    assert!(contains_unsafe_keyword(" unsafe "));
}

#[test]
fn keyword_detector_empty_string() {
    assert!(!contains_unsafe_keyword(""));
}

#[test]
fn keyword_detector_matches_at_end_of_line() {
    assert!(contains_unsafe_keyword("let x = unsafe"));
}

#[test]
fn keyword_detector_rejects_digit_and_unicode_neighbours() {
    assert!(!contains_unsafe_keyword("unsafe2"));
    assert!(!contains_unsafe_keyword("éunsafe"));
    assert!(contains_unsafe_keyword("(unsafe)"));
}

#[test]
fn keyword_detector_finds_later_occurrence() {
    assert!(contains_unsafe_keyword("unsafe_x unsafe"));
}
