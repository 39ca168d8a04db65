use minimint::cli::transform;
use minimint::{CliError, CliErrorKind, ModuleSelector, ModuleSelectorError};

#[test]
fn cli_error_from_keeps_its_parts() {
    let e = CliError::from(CliErrorKind::IOError, "could not load config", Some("no such file".to_string()));
    assert_eq!(e.kind, CliErrorKind::IOError);
    assert_eq!(e.message, "could not load config");
    assert_eq!(e.raw_error, Some("no such file".to_string()));
    let bare = CliError::from(CliErrorKind::GeneralFederationError, "no gateways found", None);
    assert_eq!(bare.kind, CliErrorKind::GeneralFederationError);
    assert_eq!(bare.message, "no gateways found");
    assert_eq!(bare.raw_error, None);
}

#[test]
fn failure_without_message_reports_the_error_text() {
    let e = CliError::from_failure(CliErrorKind::GeneralFailure, "boom".to_string());
    assert_eq!(
        e,
        CliError {
            kind: CliErrorKind::GeneralFailure,
            message: "boom".to_string(),
            raw_error: Some("boom".to_string()),
        }
    );
}

#[test]
fn missing_value_has_its_own_message() {
    let e = CliError::from_missing(CliErrorKind::InvalidValue);
    assert_eq!(
        e,
        CliError { kind: CliErrorKind::InvalidValue, message: "Missing value".to_string(), raw_error: None }
    );
}

#[test]
fn transform_keeps_success_and_wraps_failure() {
    let ok: Result<u32, String> = Ok(5);
    assert_eq!(transform(ok, CliErrorKind::Timeout, "timeout reached"), Ok(5));
    let failed: Result<u32, String> = Err("late".to_string());
    assert_eq!(
        transform(failed, CliErrorKind::Timeout, "timeout reached"),
        Err(CliError {
            kind: CliErrorKind::Timeout,
            message: "timeout reached".to_string(),
            raw_error: Some("late".to_string()),
        })
    );
}

#[test]
fn digits_select_an_instance() {
    assert_eq!(ModuleSelector::from_str("0"), Ok(ModuleSelector::Id(0)));
    assert_eq!(ModuleSelector::from_str("12"), Ok(ModuleSelector::Id(12)));
    assert_eq!(ModuleSelector::from_str("007"), Ok(ModuleSelector::Id(7)));
    assert_eq!(ModuleSelector::from_str("65535"), Ok(ModuleSelector::Id(65535)));
}

#[test]
fn other_text_selects_a_kind() {
    assert_eq!(ModuleSelector::from_str("mint"), Ok(ModuleSelector::Kind("mint".to_string())));
    assert_eq!(ModuleSelector::from_str("12a"), Ok(ModuleSelector::Kind("12a".to_string())));
    assert_eq!(ModuleSelector::from_str("-1"), Ok(ModuleSelector::Kind("-1".to_string())));
    assert_eq!(ModuleSelector::from_str("+1"), Ok(ModuleSelector::Kind("+1".to_string())));
    assert_eq!(ModuleSelector::from_str(" 1"), Ok(ModuleSelector::Kind(" 1".to_string())));
    assert_eq!(
        ModuleSelector::from_str("\u{664}\u{662}"),
        Ok(ModuleSelector::Kind("\u{664}\u{662}".to_string()))
    );
}

#[test]
fn empty_selector_is_rejected() {
    assert_eq!(ModuleSelector::from_str(""), Err(ModuleSelectorError::Empty));
}

#[test]
fn selector_beyond_the_largest_id_is_rejected() {
    assert_eq!(ModuleSelector::from_str("65536"), Err(ModuleSelectorError::TooLarge));
    assert_eq!(ModuleSelector::from_str("99999999999999999999999"), Err(ModuleSelectorError::TooLarge));
    assert_eq!(ModuleSelector::from_str("0000065536"), Err(ModuleSelectorError::TooLarge));
}

#[test]
fn selector_agrees_with_the_standard_parser() {
    for text in ["1", "42", "65535", "000", "65536", "", "100000"] {
        let expected = text.parse::<u16>().ok();
        let got = match ModuleSelector::from_str(text) {
            Ok(ModuleSelector::Id(id)) => Some(id),
            Ok(ModuleSelector::Kind(_)) => panic!("digits read as a kind"),
            Err(_) => None,
        };
        assert_eq!(got, expected);
    }
}
