use aargh64::error::ResolutionError;
use aargh64::platform::TargetPlatform;

#[test]
fn platform_is_split_at_the_slash() {
    let platform = TargetPlatform::parse("linux/arm64").unwrap();
    assert_eq!(platform.os, "linux");
    assert_eq!(platform.architecture, "arm64");
}

#[test]
fn platform_is_split_at_the_first_slash_only() {
    let platform = TargetPlatform::parse("linux/arm/v7").unwrap();
    assert_eq!(platform.os, "linux");
    assert_eq!(platform.architecture, "arm/v7");
}

#[test]
fn platform_without_slash_is_malformed() {
    assert_eq!(
        TargetPlatform::parse("linux"),
        Err(ResolutionError::Parse { input: "linux".to_string() })
    );
    assert_eq!(
        TargetPlatform::parse(""),
        Err(ResolutionError::Parse { input: String::new() })
    );
}

#[test]
fn platform_may_have_empty_names() {
    let platform = TargetPlatform::parse("/").unwrap();
    assert_eq!(platform.os, "");
    assert_eq!(platform.architecture, "");
    let platform = TargetPlatform::parse("linux/").unwrap();
    assert_eq!(platform.os, "linux");
    assert_eq!(platform.architecture, "");
    let platform = TargetPlatform::parse("/amd64").unwrap();
    assert_eq!(platform.os, "");
    assert_eq!(platform.architecture, "amd64");
}

#[test]
fn platform_names_may_hold_any_letters() {
    let platform = TargetPlatform::parse("düsseldorf/日本語").unwrap();
    assert_eq!(platform.os, "düsseldorf");
    assert_eq!(platform.architecture, "日本語");
}
