use tesseract_rs::arrays::{IntArrayReader, TextArrayReader};
use tesseract_rs::cursors::{cursor_pair, teardown, Teardown};
use tesseract_rs::image::validate_image;
use tesseract_rs::results::{
    detected_script, flag_result, optional_text, owned_text, present_or, status_result, NativeText,
};
use tesseract_rs::TesseractError;

#[test]
fn zero_width_is_invalid_dimensions() {
    assert_eq!(validate_image(&[0u8; 16], 0, 4, 1, 4), Err(TesseractError::InvalidDimensions));
    assert_eq!(validate_image(&[0u8; 16], 4, 0, 1, 4), Err(TesseractError::InvalidDimensions));
    assert_eq!(validate_image(&[0u8; 16], -1, 4, 1, 4), Err(TesseractError::InvalidDimensions));
}

#[test]
fn zero_bytes_per_pixel_is_rejected() {
    assert_eq!(validate_image(&[0u8; 16], 4, 4, 0, 4), Err(TesseractError::InvalidBytesPerPixel));
}

#[test]
fn short_row_is_invalid_bytes_per_line() {
    assert_eq!(validate_image(&[0u8; 64], 4, 4, 3, 11), Err(TesseractError::InvalidBytesPerLine));
}

#[test]
fn short_buffer_is_invalid_image_data() {
    assert_eq!(validate_image(&[0u8; 47], 4, 4, 3, 12), Err(TesseractError::InvalidImageData));
}

#[test]
fn exact_and_padded_buffers_are_accepted() {
    assert_eq!(validate_image(&[0u8; 48], 4, 4, 3, 12), Ok(()));
    assert_eq!(validate_image(&[0u8; 64], 4, 4, 3, 16), Ok(()));
}

#[test]
fn large_dimensions_do_not_overflow() {
    assert_eq!(
        validate_image(&[0u8; 8], i32::MAX, i32::MAX, i32::MAX, i32::MAX),
        Err(TesseractError::InvalidBytesPerLine)
    );
    assert_eq!(validate_image(&[0u8; 8], 1, i32::MAX, 1, i32::MAX), Err(TesseractError::InvalidImageData));
}

#[test]
fn confidences_stop_at_sentinel() {
    let mut reader = IntArrayReader::new();
    assert!(reader.feed(88));
    assert!(reader.feed(91));
    assert!(!reader.feed(-1));
    assert!(reader.is_finished());
    assert_eq!(reader.finish(), vec![88, 91]);
}

#[test]
fn empty_confidence_array() {
    let mut reader = IntArrayReader::new();
    assert!(!reader.feed(-1));
    assert_eq!(reader.finish(), Vec::<i32>::new());
}

#[test]
fn text_array_stops_at_null() {
    let mut reader = TextArrayReader::new();
    assert!(reader.feed(NativeText::Text("eng".to_string())));
    assert!(reader.feed(NativeText::Text("osd".to_string())));
    assert!(!reader.feed(NativeText::Null));
    assert_eq!(reader.finish(), Ok(vec!["eng".to_string(), "osd".to_string()]));
}

#[test]
fn text_array_reports_undecodable_string() {
    let mut reader = TextArrayReader::new();
    assert!(reader.feed(NativeText::Text("eng".to_string())));
    assert!(!reader.feed(NativeText::NotUtf8));
    assert!(reader.is_finished());
    assert_eq!(reader.finish(), Err(TesseractError::Utf8Error));
}

#[test]
fn owned_text_maps_each_outcome() {
    assert_eq!(owned_text(NativeText::Null, TesseractError::OcrError), Err(TesseractError::OcrError));
    assert_eq!(
        owned_text(NativeText::Null, TesseractError::ProcessPagesError),
        Err(TesseractError::ProcessPagesError)
    );
    assert_eq!(owned_text(NativeText::NotUtf8, TesseractError::OcrError), Err(TesseractError::Utf8Error));
    assert_eq!(
        owned_text(NativeText::Text("hello".to_string()), TesseractError::OcrError),
        Ok("hello".to_string())
    );
}

#[test]
fn optional_text_null_is_empty() {
    assert_eq!(optional_text(NativeText::Null), Ok(String::new()));
    assert_eq!(optional_text(NativeText::NotUtf8), Err(TesseractError::Utf8Error));
    assert_eq!(optional_text(NativeText::Text("eng+tur".to_string())), Ok("eng+tur".to_string()));
}

#[test]
fn status_codes_map_to_named_errors() {
    assert_eq!(status_result(0, 0, TesseractError::InitError), Ok(()));
    assert_eq!(status_result(-1, 0, TesseractError::InitError), Err(TesseractError::InitError));
    assert_eq!(status_result(1, 1, TesseractError::SetVariableError), Ok(()));
    assert_eq!(status_result(0, 1, TesseractError::SetVariableError), Err(TesseractError::SetVariableError));
    assert_eq!(status_result(3, 0, TesseractError::IoError), Err(TesseractError::IoError));
}

#[test]
fn flags_and_pointers_map_to_named_errors() {
    assert_eq!(flag_result(0, TesseractError::OcrError), Err(TesseractError::OcrError));
    assert_eq!(flag_result(1, TesseractError::OcrError), Ok(()));
    assert_eq!(flag_result(-7, TesseractError::OcrError), Ok(()));
    assert_eq!(present_or(false, TesseractError::NullPointerError), Err(TesseractError::NullPointerError));
    assert_eq!(present_or(false, TesseractError::UninitializedError), Err(TesseractError::UninitializedError));
    assert_eq!(present_or(true, TesseractError::NullPointerError), Ok(()));
}

#[test]
fn layout_cursor_released_when_result_cursor_missing() {
    let plan = cursor_pair(true, false);
    assert!(plan.release_layout);
    assert!(!plan.release_result);
    assert_eq!(plan.outcome, Err(TesseractError::NullPointerError));
}

#[test]
fn result_cursor_released_when_layout_cursor_missing() {
    let plan = cursor_pair(false, true);
    assert!(!plan.release_layout);
    assert!(plan.release_result);
    assert_eq!(plan.outcome, Err(TesseractError::NullPointerError));
}

#[test]
fn cursor_pair_handed_out_or_nothing_released() {
    let both = cursor_pair(true, true);
    assert_eq!(both.outcome, Ok(()));
    assert!(!both.release_layout && !both.release_result);
    let neither = cursor_pair(false, false);
    assert_eq!(neither.outcome, Err(TesseractError::NullPointerError));
    assert!(!neither.release_layout && !neither.release_result);
}

#[test]
fn teardown_of_null_handle_calls_nothing() {
    assert!(teardown(false) == Teardown::Nothing);
    assert!(teardown(true) == Teardown::EndThenDelete);
}

#[test]
fn detected_script_checks_flag_first() {
    assert_eq!(
        detected_script(0, NativeText::Text("Latin".to_string())),
        Err(TesseractError::OcrError)
    );
    assert_eq!(detected_script(1, NativeText::Text("Latin".to_string())), Ok("Latin".to_string()));
    assert_eq!(detected_script(1, NativeText::Null), Ok(String::new()));
    assert_eq!(detected_script(1, NativeText::NotUtf8), Err(TesseractError::Utf8Error));
}

#[test]
fn null_language_string_is_null_pointer_error() {
    assert_eq!(
        owned_text(NativeText::Null, TesseractError::NullPointerError),
        Err(TesseractError::NullPointerError)
    );
    assert_eq!(
        owned_text(NativeText::Text("eng".to_string()), TesseractError::NullPointerError),
        Ok("eng".to_string())
    );
}

#[test]
fn reader_stops_at_first_sentinel_of_longer_array() {
    let raw = [88, 91, -1, 77, -1];
    let mut reader = IntArrayReader::new();
    let mut fed = 0;
    while reader.feed(raw[fed]) {
        fed += 1;
    }
    assert_eq!(fed, 2);
    assert_eq!(reader.finish(), vec![88, 91]);
}
