use maenami::vr::{describe_device, property_outcome};
use maenami::{ApplicationType, Context, DeviceClass, DeviceDescription, TrackedControllerRole,
    Universe};

#[test]
fn application_type_codes() {
    assert_eq!(ApplicationType::Other.raw_value(), 0);
    assert_eq!(ApplicationType::Scene.raw_value(), 1);
    assert_eq!(ApplicationType::Overlay.raw_value(), 2);
    assert_eq!(ApplicationType::Background.raw_value(), 3);
    assert_eq!(ApplicationType::Utility.raw_value(), 4);
}

#[test]
fn universe_codes() {
    assert_eq!(Universe::Seated.raw_value(), 0);
    assert_eq!(Universe::Standing.raw_value(), 1);
    assert_eq!(Universe::Raw.raw_value(), 2);
}

#[test]
fn device_class_codes_round_trip() {
    for raw in 0..=5 {
        let class = DeviceClass::from_raw(raw).unwrap();
        assert_eq!(class.raw_value(), raw);
    }
    assert!(DeviceClass::from_raw(6).is_none());
    assert!(DeviceClass::from_raw(-1).is_none());
    assert_eq!(DeviceClass::from_raw(1), Some(DeviceClass::HeadMountDisplay));
}

#[test]
fn controller_role_codes() {
    assert_eq!(TrackedControllerRole::from_raw(1), Some(TrackedControllerRole::LeftHand));
    assert_eq!(TrackedControllerRole::from_raw(2), Some(TrackedControllerRole::RightHand));
    assert!(TrackedControllerRole::from_raw(9).is_none());
}

#[test]
fn device_descriptions_follow_class() {
    assert_eq!(describe_device(DeviceClass::Invalid, 0), None);
    assert_eq!(
        describe_device(DeviceClass::HeadMountDisplay, 0),
        Some(DeviceDescription::HeadmountDisplay)
    );
    assert_eq!(
        describe_device(DeviceClass::Controller, 2),
        Some(DeviceDescription::Controller(TrackedControllerRole::RightHand))
    );
    assert_eq!(describe_device(DeviceClass::GenericTracker, 0), Some(DeviceDescription::Tracker));
    assert_eq!(
        describe_device(DeviceClass::TrackingReference, 0),
        Some(DeviceDescription::Reference)
    );
    assert_eq!(describe_device(DeviceClass::DisplayRedirect, 0), None);
}

#[test]
fn context_wraps_the_session_token() {
    let context = Context::from_init(0, 41).unwrap();
    assert_eq!(context.token(), 41);
    assert_eq!(Context::from_init(108, 0).unwrap_err(), 108);
}

#[test]
fn property_outcome_follows_the_error_code() {
    assert_eq!(property_outcome(0, 7u64), Ok(7));
    assert_eq!(property_outcome(3, 7u64), Err(3));
    assert_eq!(property_outcome(0, "serial".to_string()), Ok("serial".to_string()));
}
