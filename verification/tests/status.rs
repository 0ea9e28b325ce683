use uefi_layer::chars::{Char16, Char8, CharConversionError};
use uefi_layer::status::{
    classify, error_code, resolve, Completion, Failure, Status,
    BUFFER_TOO_SMALL, DEVICE_ERROR, ERROR_BIT, NOT_FOUND,
};

#[test]
fn classify_partitions_codes() {
    assert_eq!(classify(0), Status::Success);
    assert_eq!(classify(2), Status::Warning(2));
    assert_eq!(classify(ERROR_BIT - 1), Status::Warning(ERROR_BIT - 1));
    assert_eq!(classify(ERROR_BIT), Status::Error(0));
    assert_eq!(classify(ERROR_BIT | 5), Status::Error(BUFFER_TOO_SMALL));
    assert_eq!(classify(u64::MAX), Status::Error(ERROR_BIT - 1));
}

#[test]
fn error_code_sets_the_error_bit() {
    assert_eq!(error_code(NOT_FOUND), 0x8000_0000_0000_000e);
    assert_eq!(classify(error_code(NOT_FOUND)), Status::Error(NOT_FOUND));
}

#[test]
fn resolve_success_keeps_quantity() {
    assert_eq!(resolve(0, 17), Ok(Completion::Success(17)));
    assert_eq!(resolve(0, 0), Ok(Completion::Success(0)));
}

#[test]
fn resolve_warning_keeps_quantity_and_kind() {
    assert_eq!(resolve(4, 9), Ok(Completion::Warning(9, 4)));
    assert_eq!(Completion::Warning(9, 4).value(), 9);
    assert_eq!(Completion::Success(3).value(), 3);
}

#[test]
fn resolve_buffer_too_small_keeps_required_size() {
    assert_eq!(
        resolve(error_code(BUFFER_TOO_SMALL), 96),
        Err(Failure { kind: BUFFER_TOO_SMALL, payload: Some(96) })
    );
}

#[test]
fn resolve_other_error_drops_quantity() {
    assert_eq!(
        resolve(error_code(DEVICE_ERROR), 96),
        Err(Failure { kind: DEVICE_ERROR, payload: None })
    );
}

#[test]
fn char8_accepts_latin1_only() {
    assert_eq!(Char8::try_from('a'), Ok(Char8(97)));
    assert_eq!(Char8::try_from('\u{ff}'), Ok(Char8(255)));
    assert_eq!(Char8::try_from('\u{100}'), Err(CharConversionError));
    assert_eq!(Char8::try_from('a').unwrap().code(), 97);
}

#[test]
fn char16_accepts_one_unit_only() {
    assert_eq!(Char16::try_from('a'), Ok(Char16(97)));
    assert_eq!(Char16::try_from('\u{ffff}'), Ok(Char16(0xffff)));
    assert_eq!(Char16::try_from('\u{10000}'), Err(CharConversionError));
    assert_eq!(Char16::try_from('\u{20ac}').unwrap().code(), 0x20ac);
}
