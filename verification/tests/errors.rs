use alamofire_kit::default_user_agent::DefaultUserAgent;
use alamofire_kit::error::{DefaultUserAgentParseError, Field};

const FULL: &str =
    "iOS Example/1.0.0 (org.alamofire.iOS-Example; build:1; iOS 13.0.0) Alamofire/5.0.0";

fn error_of(input: &[u8]) -> DefaultUserAgentParseError {
    DefaultUserAgent::parse(input).unwrap_err()
}

fn shown(input: &[u8]) -> String {
    format!("{:?}", error_of(input))
}

fn semver_error(text: &str) -> String {
    semver::Version::parse(text).unwrap_err().to_string()
}

fn utf8_error(bytes: &[u8]) -> String {
    String::from_utf8(bytes.to_vec()).unwrap_err().to_string()
}

#[test]
fn truncation_before_a_delimiter_is_a_read_failure_of_its_field() {
    let cut = |end: &str| &FULL.as_bytes()[..FULL.find(end).unwrap()];
    assert_eq!(shown(cut("/1.0.0")), "ExecutableReadFailed(\"Invalid\")");
    assert_eq!(shown(cut(" (org")), "AppVersionReadFailed(\"Invalid\")");
    assert_eq!(shown(cut("; build")), "BundleReadFailed(\"Invalid\")");
    assert_eq!(shown(cut("; iOS")), "AppBuildReadFailed(\"Invalid\")");
    assert_eq!(shown(cut(" 13.0.0")), "OsNameReadFailed(\"Invalid\")");
    assert_eq!(shown(cut(") Alamofire")), "OsVersionReadFailed(\"Invalid\")");
}

#[test]
fn truncation_within_a_field_is_a_read_failure_of_that_field() {
    assert!(matches!(error_of(b""), DefaultUserAgentParseError::ExecutableReadFailed(m) if m == "Invalid"));
    assert!(matches!(error_of(b"iOS Exa"), DefaultUserAgentParseError::ExecutableReadFailed(m) if m == "Invalid"));
    assert!(matches!(error_of(b"App/"), DefaultUserAgentParseError::AppVersionReadFailed(m) if m == "Invalid"));
    assert!(matches!(error_of(b"App/1.0"), DefaultUserAgentParseError::AppVersionReadFailed(m) if m == "Invalid"));
    assert!(matches!(error_of(b"App/1.0.0 (org"), DefaultUserAgentParseError::BundleReadFailed(m) if m == "Invalid"));
    assert!(matches!(error_of(b"App/1.0.0 (org; build:"), DefaultUserAgentParseError::AppBuildReadFailed(m) if m == "Invalid"));
    assert!(matches!(error_of(b"App/1.0.0 (org; build:1; "), DefaultUserAgentParseError::OsNameReadFailed(m) if m == "Invalid"));
    assert!(matches!(error_of(b"App/1.0.0 (org; build:1; iOS 13.0"), DefaultUserAgentParseError::OsVersionReadFailed(m) if m == "Invalid"));
}

#[test]
fn a_missing_fixed_part_is_a_structural_mismatch() {
    assert!(matches!(
        error_of(b"App/1.0.0 [org; build:1; iOS 13.0.0) Alamofire/5.0.0"),
        DefaultUserAgentParseError::Other("Mismatch AppVersion end")
    ));
    assert!(matches!(
        error_of(b"App/1.0.0 "),
        DefaultUserAgentParseError::Other("Mismatch AppVersion end")
    ));
    assert!(matches!(
        error_of(b"App/1.0.0 (org;build:1; iOS 13.0.0) Alamofire/5.0.0"),
        DefaultUserAgentParseError::Other("Mismatch Bundle end")
    ));
    assert!(matches!(
        error_of(b"App/1.0.0 (org; build"),
        DefaultUserAgentParseError::Other("Mismatch Bundle end")
    ));
    assert!(matches!(
        error_of(b"App/1.0.0 (org; build:1;iOS 13.0.0) Alamofire/5.0.0"),
        DefaultUserAgentParseError::Other("Mismatch AppBuild end")
    ));
    assert!(matches!(
        error_of(b"App/1.0.0 (org; build:1; iOS 13.0.0) alamofire/5.0.0"),
        DefaultUserAgentParseError::Other("Mismatch OsVersion end")
    ));
    assert!(matches!(
        error_of(b"App/1.0.0 (org; build:1; iOS 13.0.0)"),
        DefaultUserAgentParseError::Other("Mismatch OsVersion end")
    ));
    assert!(matches!(
        error_of(b"App/1.0.0 (org; build:1; iOS 13.0.0) Alamofire/5.0.0\nmore"),
        DefaultUserAgentParseError::Other("Mismatch AlamofireVersion end")
    ));
    assert!(matches!(
        error_of(b"App/1.0.0 (org; build:1; iOS 13.0.0) Alamofire/5.0.0\n\n"),
        DefaultUserAgentParseError::Other("Mismatch AlamofireVersion end")
    ));
}

#[test]
fn bytes_that_are_not_utf8_are_a_parse_failure_of_their_field() {
    let message = utf8_error(b"\xff");
    assert!(matches!(
        error_of(b"\xff/1.0.0 (org; build:1; iOS 13.0.0) Alamofire/5.0.0"),
        DefaultUserAgentParseError::ExecutableParseFailed(m) if m == message
    ));
    assert!(matches!(
        error_of(b"App/\xff (org; build:1; iOS 13.0.0) Alamofire/5.0.0"),
        DefaultUserAgentParseError::AppVersionParseFailed(m) if m == message
    ));
    assert!(matches!(
        error_of(b"App/1.0.0 (\xff; build:1; iOS 13.0.0) Alamofire/5.0.0"),
        DefaultUserAgentParseError::BundleParseFailed(m) if m == message
    ));
    assert!(matches!(
        error_of(b"App/1.0.0 (org; build:\xff; iOS 13.0.0) Alamofire/5.0.0"),
        DefaultUserAgentParseError::AppBuildParseFailed(m) if m == message
    ));
    assert!(matches!(
        error_of(b"App/1.0.0 (org; build:1; \xff 13.0.0) Alamofire/5.0.0"),
        DefaultUserAgentParseError::OsNameParseFailed(m) if m == message
    ));
    assert!(matches!(
        error_of(b"App/1.0.0 (org; build:1; iOS \xff) Alamofire/5.0.0"),
        DefaultUserAgentParseError::OsVersionParseFailed(m) if m == message
    ));
    assert!(matches!(
        error_of(b"App/1.0.0 (org; build:1; iOS 13.0.0) Alamofire/\xff"),
        DefaultUserAgentParseError::AlamofireVersionParseFailed(m) if m == message
    ));
    let longer = utf8_error(b"ab\xe2\x82");
    assert!(matches!(
        error_of(b"ab\xe2\x82/1.0.0 (org; build:1; iOS 13.0.0) Alamofire/5.0.0"),
        DefaultUserAgentParseError::ExecutableParseFailed(m) if m == longer
    ));
}

#[test]
fn a_text_that_is_no_value_is_a_parse_failure_of_its_field() {
    assert!(matches!(
        error_of(b"App/1.0 (org; build:1; iOS 13.0.0) Alamofire/5.0.0"),
        DefaultUserAgentParseError::AppVersionParseFailed(m) if m == semver_error("1.0")
    ));
    assert!(matches!(
        error_of(b"App/ (org; build:1; iOS 13.0.0) Alamofire/5.0.0"),
        DefaultUserAgentParseError::AppVersionParseFailed(m) if m == semver_error("")
    ));
    assert!(matches!(
        error_of(b"App/1.0.0 (org; build:1.2.3.4; iOS 13.0.0) Alamofire/5.0.0"),
        DefaultUserAgentParseError::AppBuildParseFailed(m) if m == "Invalid"
    ));
    assert!(matches!(
        error_of(b"App/1.0.0 (org; build:one; iOS 13.0.0) Alamofire/5.0.0"),
        DefaultUserAgentParseError::AppBuildParseFailed(m) if m == semver_error("one.0.0")
    ));
    assert!(matches!(
        error_of(b"App/1.0.0 (org; build:1; Android 13.0.0) Alamofire/5.0.0"),
        DefaultUserAgentParseError::OsNameParseFailed(m) if m == "Mismatch"
    ));
    assert!(matches!(
        error_of(b"App/1.0.0 (org; build:1; iOS 13) Alamofire/5.0.0"),
        DefaultUserAgentParseError::OsVersionParseFailed(m) if m == semver_error("13")
    ));
    assert!(matches!(
        error_of(b"App/1.0.0 (org; build:1; iOS Unknown) Alamofire/5.0.0"),
        DefaultUserAgentParseError::OsVersionParseFailed(m) if m == semver_error("Unknown")
    ));
    assert!(matches!(
        error_of(b"App/1.0.0 (org; build:1; iOS 13.0.0) Alamofire/5"),
        DefaultUserAgentParseError::AlamofireVersionParseFailed(m) if m == semver_error("5")
    ));
    assert!(matches!(
        error_of(b"App/1.0.0 (org; build:1; iOS 13.0.0) Alamofire/"),
        DefaultUserAgentParseError::AlamofireVersionParseFailed(m) if m == semver_error("")
    ));
    assert!(matches!(
        error_of(b"App/1.0.0 (org; build:1; iOS 13.0.0) Alamofire/5.0.0\r\n"),
        DefaultUserAgentParseError::AlamofireVersionParseFailed(m) if m == semver_error("5.0.0\r")
    ));
    assert!(matches!(
        error_of(b"App/1.0.0 (org; build:1; iOS 13.0.0) Alamofire/Unknown"),
        DefaultUserAgentParseError::AlamofireVersionParseFailed(m) if m == semver_error("Unknown")
    ));
}

#[test]
fn the_first_failure_ends_the_reading() {
    assert!(matches!(
        error_of(b"\xff/1.0 [Android"),
        DefaultUserAgentParseError::ExecutableParseFailed(_)
    ));
    assert!(matches!(
        error_of(b"App/1.0 [Android"),
        DefaultUserAgentParseError::AppVersionParseFailed(_)
    ));
    assert!(matches!(
        error_of(b"App/1.0.0 (org; build:1.2.3.4;Android"),
        DefaultUserAgentParseError::AppBuildParseFailed(_)
    ));
}

#[test]
fn errors_are_made_from_field_and_message() {
    let fields = [
        (Field::Executable, "Executable"),
        (Field::AppVersion, "AppVersion"),
        (Field::Bundle, "Bundle"),
        (Field::AppBuild, "AppBuild"),
        (Field::OsName, "OsName"),
        (Field::OsVersion, "OsVersion"),
        (Field::AlamofireVersion, "AlamofireVersion"),
    ];
    for (field, name) in fields {
        assert_eq!(
            format!("{:?}", DefaultUserAgentParseError::read_failed(field, "m".to_owned())),
            format!("{}ReadFailed(\"m\")", name)
        );
        assert_eq!(
            format!("{:?}", DefaultUserAgentParseError::parse_failed(field, "m".to_owned())),
            format!("{}ParseFailed(\"m\")", name)
        );
    }
}
