//! The pure decision layer of the VR tracking loop: the numeric codes the
//! runtime speaks, and what its answers mean for device tracking.  The
//! runtime calls themselves are foreign functions and live outside this
//! crate; callers hand the raw codes in and act on the typed results.

use vstd::prelude::*;

verus! {

/// What kind of application the runtime is told it is serving.
#[derive(Debug, Clone, Copy, PartialEq, Eq, PartialOrd, Ord)]
pub enum ApplicationType {
    Other,
    Scene,
    Overlay,
    Background,
    Utility,
}

/// The numeric code of an application type.
pub open spec fn spec_application_type_raw(t: ApplicationType) -> u32 {
    match t {
        ApplicationType::Other => 0,
        ApplicationType::Scene => 1,
        ApplicationType::Overlay => 2,
        ApplicationType::Background => 3,
        ApplicationType::Utility => 4,
    }
}

impl ApplicationType {
    /// The numeric code that the runtime expects for this application
    /// type.
    pub fn raw_value(&self) -> (r: u32)
        ensures
            r == spec_application_type_raw(*self),
    {
        match self {
            ApplicationType::Other => 0,
            ApplicationType::Scene => 1,
            ApplicationType::Overlay => 2,
            ApplicationType::Background => 3,
            ApplicationType::Utility => 4,
        }
    }
}

/// The coordinate universe that poses are reported in.
#[derive(Debug, Clone, Copy, PartialEq, Eq, PartialOrd, Ord)]
pub enum Universe {
    Seated,
    Standing,
    Raw,
}

/// The numeric code of a tracking universe.
pub open spec fn spec_universe_raw(u: Universe) -> i32 {
    match u {
        Universe::Seated => 0,
        Universe::Standing => 1,
        Universe::Raw => 2,
    }
}

impl Universe {
    /// The numeric code that the runtime expects for this universe.
    pub fn raw_value(&self) -> (r: i32)
        ensures
            r == spec_universe_raw(*self),
    {
        match self {
            Universe::Seated => 0,
            Universe::Standing => 1,
            Universe::Raw => 2,
        }
    }
}

/// The class of a tracked device.
#[derive(Debug, Clone, Copy, PartialEq, Eq, PartialOrd, Ord)]
pub enum DeviceClass {
    Invalid,
    HeadMountDisplay,
    Controller,
    GenericTracker,
    TrackingReference,
    DisplayRedirect,
}

/// The device class that a runtime code denotes, if any.
pub open spec fn spec_device_class_from_raw(raw: i32) -> Option<DeviceClass> {
    if raw == 0 {
        Some(DeviceClass::Invalid)
    } else if raw == 1 {
        Some(DeviceClass::HeadMountDisplay)
    } else if raw == 2 {
        Some(DeviceClass::Controller)
    } else if raw == 3 {
        Some(DeviceClass::GenericTracker)
    } else if raw == 4 {
        Some(DeviceClass::TrackingReference)
    } else if raw == 5 {
        Some(DeviceClass::DisplayRedirect)
    } else {
        None
    }
}

/// The numeric code of a device class.
pub open spec fn spec_device_class_raw(c: DeviceClass) -> i32 {
    match c {
        DeviceClass::Invalid => 0,
        DeviceClass::HeadMountDisplay => 1,
        DeviceClass::Controller => 2,
        DeviceClass::GenericTracker => 3,
        DeviceClass::TrackingReference => 4,
        DeviceClass::DisplayRedirect => 5,
    }
}

impl DeviceClass {
    /// The device class that the runtime code `raw` denotes; nothing when
    /// the code is unknown, which callers report as an error.
    pub fn from_raw(raw: i32) -> (r: Option<DeviceClass>)
        ensures
            r == spec_device_class_from_raw(raw),
            r matches Some(c) ==> spec_device_class_raw(c) == raw,
    {
        if raw == 0 {
            Some(DeviceClass::Invalid)
        } else if raw == 1 {
            Some(DeviceClass::HeadMountDisplay)
        } else if raw == 2 {
            Some(DeviceClass::Controller)
        } else if raw == 3 {
            Some(DeviceClass::GenericTracker)
        } else if raw == 4 {
            Some(DeviceClass::TrackingReference)
        } else if raw == 5 {
            Some(DeviceClass::DisplayRedirect)
        } else {
            None
        }
    }

    /// The numeric code of this device class.
    pub fn raw_value(&self) -> (r: i32)
        ensures
            r == spec_device_class_raw(*self),
    {
        match self {
            DeviceClass::Invalid => 0,
            DeviceClass::HeadMountDisplay => 1,
            DeviceClass::Controller => 2,
            DeviceClass::GenericTracker => 3,
            DeviceClass::TrackingReference => 4,
            DeviceClass::DisplayRedirect => 5,
        }
    }
}

/// The hand or role a controller is assigned.
#[derive(Debug, Clone, Copy, PartialEq, Eq, PartialOrd, Ord)]
pub enum TrackedControllerRole {
    Invalid,
    LeftHand,
    RightHand,
    OptOut,
    Treadmill,
    Stylus,
}

/// The controller role that a runtime hint denotes, if any.
pub open spec fn spec_role_from_raw(raw: i32) -> Option<TrackedControllerRole> {
    if raw == 0 {
        Some(TrackedControllerRole::Invalid)
    } else if raw == 1 {
        Some(TrackedControllerRole::LeftHand)
    } else if raw == 2 {
        Some(TrackedControllerRole::RightHand)
    } else if raw == 3 {
        Some(TrackedControllerRole::OptOut)
    } else if raw == 4 {
        Some(TrackedControllerRole::Treadmill)
    } else if raw == 5 {
        Some(TrackedControllerRole::Stylus)
    } else {
        None
    }
}

impl TrackedControllerRole {
    /// The controller role that the runtime hint `raw` denotes; nothing
    /// when the hint is unknown.
    pub fn from_raw(raw: i32) -> (r: Option<TrackedControllerRole>)
        ensures
            r == spec_role_from_raw(raw),
    {
        if raw == 0 {
            Some(TrackedControllerRole::Invalid)
        } else if raw == 1 {
            Some(TrackedControllerRole::LeftHand)
        } else if raw == 2 {
            Some(TrackedControllerRole::RightHand)
        } else if raw == 3 {
            Some(TrackedControllerRole::OptOut)
        } else if raw == 4 {
            Some(TrackedControllerRole::Treadmill)
        } else if raw == 5 {
            Some(TrackedControllerRole::Stylus)
        } else {
            None
        }
    }
}

/// What the tracking loop records about one device.
#[derive(Debug, Clone, PartialEq, Eq)]
pub enum DeviceDescription {
    /// A head-mounted display.
    HeadmountDisplay,
    /// A handheld controller with its role.
    Controller(TrackedControllerRole),
    /// A generic tracker.
    Tracker,
    /// A tracking reference such as a base station.
    Reference,
}

/// The description adopted for a device: displays, controllers, trackers
/// and references are tracked; invalid devices and display redirects are
/// skipped.  A controller with an unknown role hint is not described.
pub open spec fn spec_describe_device(class: DeviceClass, role_hint: i32) -> Option<
    DeviceDescription,
> {
    match class {
        DeviceClass::Invalid => None,
        DeviceClass::HeadMountDisplay => Some(DeviceDescription::HeadmountDisplay),
        DeviceClass::Controller => match spec_role_from_raw(role_hint) {
            Some(role) => Some(DeviceDescription::Controller(role)),
            None => None,
        },
        DeviceClass::GenericTracker => Some(DeviceDescription::Tracker),
        DeviceClass::TrackingReference => Some(DeviceDescription::Reference),
        DeviceClass::DisplayRedirect => None,
    }
}

/// The description adopted for a device of class `class` whose
/// controller-role hint is `role_hint`; nothing for the classes that the
/// tracking loop skips.  The role hint must denote a role when the device
/// is a controller: the caller checks the hint it fetched before asking.
pub fn describe_device(class: DeviceClass, role_hint: i32) -> (r: Option<DeviceDescription>)
    requires
        class is Controller ==> spec_role_from_raw(role_hint) is Some,
    ensures
        r == spec_describe_device(class, role_hint),
{
    match class {
        DeviceClass::Invalid => None,
        DeviceClass::HeadMountDisplay => Some(DeviceDescription::HeadmountDisplay),
        DeviceClass::Controller => match TrackedControllerRole::from_raw(role_hint) {
            Some(role) => Some(DeviceDescription::Controller(role)),
            None => None,
        },
        DeviceClass::GenericTracker => Some(DeviceDescription::Tracker),
        DeviceClass::TrackingReference => Some(DeviceDescription::Reference),
        DeviceClass::DisplayRedirect => None,
    }
}

/// A witness of an initialized runtime session, carrying the session
/// token that initialization returned.
#[derive(Debug, PartialEq, Eq)]
pub struct Context {
    token: u32,
}

impl Context {
    /// The token this context carries.
    pub closed spec fn token_value(&self) -> u32 {
        self.token
    }

    /// What runtime initialization decides: a zero error code means the
    /// session is up and its token stands; any other code is the raw
    /// initialization error, handed back for reporting.
    pub fn from_init(err: i32, token: u32) -> (r: Result<Context, i32>)
        ensures
            err == 0 <==> r is Ok,
            r matches Ok(c) ==> c.token_value() == token,
            r matches Err(e) ==> e == err,
    {
        if err == 0 {
            Ok(Context { token })
        } else {
            Err(err)
        }
    }

    /// Returns the token number that runtime initialization returned.
    pub fn token(&self) -> (r: u32)
        ensures
            r == self.token_value(),
    {
        self.token
    }
}

/// What fetching a tracked device property decides: a zero error code
/// means the fetched value stands; any other code is the raw property
/// error, handed back for reporting.
pub fn property_outcome<T>(prop_error: i32, value: T) -> (r: Result<T, i32>)
    ensures
        prop_error == 0 <==> r is Ok,
        r matches Ok(v) ==> v == value,
        r matches Err(e) ==> e == prop_error,
{
    if prop_error == 0 {
        Ok(value)
    } else {
        Err(prop_error)
    }
}

} // verus!
