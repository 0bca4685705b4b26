use ios_runner_core::destination::{
    default_destination_index, destination_display_name, destination_is_available,
    destinations_from_showdestinations, device_udid_from_destination,
    is_macos_destination, is_placeholder_destination, is_simulator_destination,
    normalize_xcodebuild_destination, parse_destination_line,
    replacement_destination_for_unavailable, validate_xcodebuild_destination, DestinationKind,
    InvalidReason, RunDestination,
};
use ios_runner_core::locale::Lang;

fn dest(kind: DestinationKind, name: &str, platform: &str, destination: &str) -> RunDestination {
    RunDestination {
        kind,
        name: name.to_string(),
        platform: platform.to_string(),
        destination: destination.to_string(),
    }
}

#[test]
fn parse_macos_destination() {
    let d = parse_destination_line(
        "{ platform:macOS, arch:arm64, id:00006021-000270EC26F0C01E, name:My Mac }",
    )
    .unwrap();
    assert_eq!(d.kind, DestinationKind::Mac);
    assert_eq!(d.name, "My Mac");
    assert!(d.destination.contains("macOS"));
}

#[test]
fn parse_simulator_destination() {
    let d = parse_destination_line("{platform=iOS Simulator,name=iPhone 16,OS=18.2}").unwrap();
    assert_eq!(d.kind, DestinationKind::Simulator);
    assert_eq!(d.name, "iPhone 16");
    assert!(d.destination.contains("iPhone 16"));
}

#[test]
fn parse_skips_any_mac() {
    assert!(parse_destination_line("{ platform:macOS, name:Any Mac }").is_none());
}

#[test]
fn parse_skips_placeholder() {
    assert!(parse_destination_line("{platform=iOS Simulator,name=placeholder}").is_none());
}

#[test]
fn validate_empty_fails() {
    assert!(validate_xcodebuild_destination("").is_err());
}

#[test]
fn normalize_colon_legacy_format() {
    let fixed = normalize_xcodebuild_destination("platform:iOS Simulator,name:iPhone 16").unwrap();
    assert_eq!(fixed, "platform=iOS Simulator,name=iPhone 16");
}

#[test]
fn placeholder_rejected() {
    assert!(is_placeholder_destination(
        "platform=iOS Simulator,name=Any iOS Simulator Device"
    ));
}

#[test]
fn replacement_keeps_same_device_name() {
    let available = vec![dest(
        DestinationKind::Device,
        "Alice's iPhone",
        "iOS",
        "platform=iOS,id=new-device-id,name=Alice's iPhone",
    )];
    let replacement = replacement_destination_for_unavailable(
        "platform:iOS,id:old-device-id,name:Alice's iPhone",
        &available,
    )
    .unwrap();
    assert_eq!(replacement.destination, available[0].destination);
}

#[test]
fn replacement_returns_none_when_current_available() {
    let available = vec![dest(
        DestinationKind::Simulator,
        "iPhone 16",
        "iOS Simulator",
        "platform=iOS Simulator,name=iPhone 16",
    )];
    assert!(replacement_destination_for_unavailable(
        "platform=iOS Simulator,name=iPhone 16",
        &available,
    )
    .is_none());
}

#[test]
fn parse_device_keeps_id() {
    let d = parse_destination_line("{ platform:iOS, id:00008110-ABC, name:Bob's iPhone }").unwrap();
    assert_eq!(d.kind, DestinationKind::Device);
    assert_eq!(d.destination, "platform=iOS,id=00008110-ABC,name=Bob's iPhone");
}

#[test]
fn parse_mac_with_arch_uses_arch() {
    let d = parse_destination_line("{ platform:macOS, arch:arm64, id:ABC, name:My Mac }").unwrap();
    assert_eq!(d.destination, "platform=macOS,arch=arm64");
}

#[test]
fn parse_unknown_platform_is_skipped() {
    assert!(parse_destination_line("{ platform:watchOS, name:Watch }").is_none());
    assert!(parse_destination_line("{ }").is_none());
    assert!(parse_destination_line("{ platform:iOS }").is_none());
}

#[test]
fn validate_reasons() {
    assert_eq!(validate_xcodebuild_destination("   ").unwrap_err().reason, InvalidReason::Empty);
    assert_eq!(
        validate_xcodebuild_destination("platform=iOS Simulator,name=placeholder")
            .unwrap_err()
            .reason,
        InvalidReason::Placeholder
    );
    assert_eq!(
        validate_xcodebuild_destination("iPhone 16").unwrap_err().reason,
        InvalidReason::MissingKeyValue
    );
    assert_eq!(
        validate_xcodebuild_destination("platform=iOS Simulator,,name=iPhone 16")
            .unwrap_err()
            .reason,
        InvalidReason::MalformedSegment
    );
    assert!(validate_xcodebuild_destination("platform=iOS Simulator,name=iPhone 16").is_ok());
}

#[test]
fn normalize_device_and_mac() {
    assert_eq!(
        normalize_xcodebuild_destination("platform:iOS,id:abc,name:Phone").unwrap(),
        "platform=iOS,id=abc,name=Phone"
    );
    assert_eq!(
        normalize_xcodebuild_destination("platform:macOS,name:My Mac").unwrap(),
        "platform=macOS,name=My Mac"
    );
    assert!(normalize_xcodebuild_destination("platform=iOS Simulator,name=placeholder").is_none());
}

#[test]
fn normalized_destination_is_normal_again() {
    let once = normalize_xcodebuild_destination("platform:iOS Simulator,name:iPhone 16").unwrap();
    let twice = normalize_xcodebuild_destination(&once).unwrap();
    assert_eq!(once, twice);
    assert!(validate_xcodebuild_destination(&once).is_ok());
}

#[test]
fn destination_kinds_and_names() {
    assert!(is_simulator_destination("platform=iOS Simulator,name=iPhone 16"));
    assert!(is_macos_destination("platform=macOS,name=My Mac"));
    assert!(!is_simulator_destination("platform=iOS,id=1,name=Phone"));
    assert_eq!(
        destination_display_name("platform=iOS Simulator,name=iPhone 16").as_deref(),
        Some("iPhone 16")
    );
}

#[test]
fn device_udid_error_names_destination() {
    assert_eq!(device_udid_from_destination("platform=iOS,id=XYZ,name=P").unwrap(), "XYZ");
    let e = device_udid_from_destination("platform=iOS,name=P").unwrap_err();
    assert_eq!(e.destination, "platform=iOS,name=P");
}

#[test]
fn default_index_prefers_my_mac_then_device() {
    let v = vec![
        dest(DestinationKind::Simulator, "iPhone 16", "iOS Simulator", "platform=iOS Simulator,name=iPhone 16"),
        dest(DestinationKind::Device, "Phone", "iOS", "platform=iOS,id=1,name=Phone"),
    ];
    assert_eq!(default_destination_index(&v), 1);
    let w = vec![
        dest(DestinationKind::Device, "Phone", "iOS", "platform=iOS,id=1,name=Phone"),
        dest(DestinationKind::Mac, "My Mac", "macOS", "platform=macOS,name=My Mac"),
    ];
    assert_eq!(default_destination_index(&w), 1);
}

#[test]
fn replacement_is_one_of_the_reported() {
    let available = vec![
        dest(DestinationKind::Simulator, "iPhone 15", "iOS Simulator", "platform=iOS Simulator,name=iPhone 15"),
        dest(DestinationKind::Device, "Phone", "iOS", "platform=iOS,id=2,name=Phone"),
    ];
    let r = replacement_destination_for_unavailable("platform=iOS Simulator,name=iPhone 99", &available)
        .unwrap();
    assert!(available.iter().any(|d| d.destination == r.destination));
    assert!(destination_is_available("platform=iOS Simulator,name=iPhone 15", &available));
}

#[test]
fn showdestinations_sorted_simulators_first() {
    let stdout = "\n\tAvailable destinations for the \"App\" scheme:\n\t\t{ platform:macOS, arch:arm64, id:M1, name:My Mac }\n\t\t{ platform:iOS, id:D1, name:Zed Phone }\n\t\t{ platform:iOS Simulator, id:S2, OS:18.2, name:iPhone 16 }\n\t\t{ platform:iOS Simulator, id:S1, OS:18.2, name:iPad Air }\n\t\t{ platform:iOS Simulator, name:Any iOS Simulator Device }\n";
    let r = destinations_from_showdestinations(stdout, "");
    let names: Vec<&str> = r.iter().map(|d| d.name.as_str()).collect();
    assert_eq!(names, vec!["Any iOS Simulator Device", "iPad Air", "iPhone 16", "Zed Phone", "My Mac"]);
    let _ = Lang::En;
}

#[test]
fn listed_destinations_pass_validation() {
    let stdout = "\tAvailable destinations for the \"App\" scheme:\n\t\t{ platform:macOS, arch:arm64, id:M1, name:My Mac }\n\t\t{ platform:macOS, id:M2, name:Build Mac }\n\t\t{ platform:iOS, id:D1, name:Zed Phone }\n\t\t{ platform:iOS, id:dvtdevice-placeholder, name:Other Phone }\n\t\t{ platform:iOS Simulator, id:S2, OS:18.2, name:iPhone 16 }\n\t\t{ platform:iOS Simulator, name:Any iOS Simulator Device }\n";
    let r = destinations_from_showdestinations(stdout, "");
    assert_eq!(r.len(), 6);
    for d in &r {
        if d.name == "Any iOS Simulator Device" {
            assert_eq!(
                validate_xcodebuild_destination(&d.destination).unwrap_err().reason,
                InvalidReason::Placeholder
            );
        } else {
            assert!(validate_xcodebuild_destination(&d.destination).is_ok(), "{}", d.destination);
        }
        if d.kind == DestinationKind::Simulator {
            assert_eq!(d.destination, format!("platform=iOS Simulator,name={}", d.name));
        }
    }
    let other = r.iter().find(|d| d.name == "Other Phone").unwrap();
    assert_eq!(other.destination, "platform=iOS,name=Other Phone");
}

#[test]
fn display_name_is_kept_and_separator_free() {
    let colon = destination_display_name("platform:iOS Simulator,name: iPhone 16 ");
    let equals = destination_display_name("platform=iOS Simulator,name= iPhone 16 ");
    assert_eq!(colon.as_deref(), Some("iPhone 16"));
    assert_eq!(colon, equals);
    let legacy = "platform:iOS,id:abc,name:Bob's iPhone";
    let fixed = normalize_xcodebuild_destination(legacy).unwrap();
    assert_eq!(destination_display_name(&fixed), destination_display_name(legacy));
    assert!(normalize_xcodebuild_destination("platform=iOS Simulator,name=Any iOS Simulator Device").is_none());
}
