use vstd::prelude::*;
use vstd::string::*;

verus! {

/// Whether the application may use a protected resource.
#[derive(Clone, Copy, Debug, PartialEq, Eq, Structural)]
pub enum PermissionState {
    NotNeeded,
    NotRequested,
    Granted,
    Denied,
}

/// One permission, with the name shown to the user.
#[derive(Clone, Debug, PartialEq, Eq)]
pub struct Permission {
    pub state: PermissionState,
    pub name: String,
}

/// The permissions dictation needs.
#[derive(Clone, Debug, PartialEq, Eq)]
pub struct Permissions {
    pub microphone: Permission,
    pub accessibility: Permission,
}

/// The host's answer on microphone access, where the host asks for consent.
#[derive(Clone, Copy, Debug, PartialEq, Eq, Structural)]
pub enum AuthorizationStatus {
    NotDetermined,
    Restricted,
    Denied,
    Authorized,
}

/// What the host reported about permissions.
#[derive(Clone, Copy, Debug, PartialEq, Eq, Structural)]
pub enum HostPermissions {
    /// A host that asks for consent: the microphone status and whether the
    /// process is trusted for accessibility.
    Consent { microphone: AuthorizationStatus, accessibility_trusted: bool },
    /// A host that grants both without asking.
    Open,
}

/// A permission that can be requested.
#[derive(Clone, Copy, Debug, PartialEq, Eq, Structural)]
pub enum PermissionKind {
    Microphone,
    Accessibility,
}

pub open spec fn microphone_state_of(status: AuthorizationStatus) -> PermissionState {
    match status {
        AuthorizationStatus::NotDetermined => PermissionState::NotRequested,
        AuthorizationStatus::Restricted => PermissionState::Denied,
        AuthorizationStatus::Denied => PermissionState::Denied,
        AuthorizationStatus::Authorized => PermissionState::Granted,
    }
}

/// The microphone permission for a host authorization status.
pub fn check_microphone_permission(status: AuthorizationStatus) -> (r: PermissionState)
    ensures
        r == microphone_state_of(status),
{
    match status {
        AuthorizationStatus::NotDetermined => PermissionState::NotRequested,
        AuthorizationStatus::Restricted | AuthorizationStatus::Denied => PermissionState::Denied,
        AuthorizationStatus::Authorized => PermissionState::Granted,
    }
}

/// The accessibility permission for whether the process is trusted.
pub fn check_accessibility_permission(trusted: bool) -> (r: PermissionState)
    ensures
        r == (if trusted {
            PermissionState::Granted
        } else {
            PermissionState::Denied
        }),
{
    if trusted {
        PermissionState::Granted
    } else {
        PermissionState::Denied
    }
}

/// Which permission `permission_type` names, or the text that rejects it.
pub fn request_permission(permission_type: &str) -> (r: Result<PermissionKind, String>)
    ensures
        permission_type@ == "microphone"@ ==> r == Ok::<PermissionKind, String>(
            PermissionKind::Microphone,
        ),
        permission_type@ == "accessibility"@ ==> r == Ok::<PermissionKind, String>(
            PermissionKind::Accessibility,
        ),
        permission_type@ != "microphone"@ && permission_type@ != "accessibility"@ ==> (r matches Err(
            e,
        ) && e@ == "Unknown permission type: "@ + permission_type@),
{
    let t = permission_type.to_owned();
    proof {
        reveal_strlit("microphone");
        reveal_strlit("accessibility");
        assert("microphone"@[0] != "accessibility"@[0]);
    }
    let microphone = String::from_str("microphone");
    let accessibility = String::from_str("accessibility");
    if t == microphone {
        Ok(PermissionKind::Microphone)
    } else if t == accessibility {
        Ok(PermissionKind::Accessibility)
    } else {
        Err(String::from_str("Unknown permission type: ").concat(permission_type))
    }
}

fn permission(state: PermissionState, name: &str) -> (r: Permission)
    ensures
        r.state == state,
        r.name@ == name@,
{
    Permission { state, name: String::from_str(name) }
}

impl Permissions {
    /// The permissions on a host that asks for consent.
    pub fn check_macos(microphone: AuthorizationStatus, accessibility_trusted: bool) -> (r: Self)
        ensures
            r.microphone.state == microphone_state_of(microphone),
            r.accessibility.state == (if accessibility_trusted {
                PermissionState::Granted
            } else {
                PermissionState::Denied
            }),
            r.microphone.name@ == "Microphone"@,
            r.accessibility.name@ == "Accessibility"@,
    {
        Permissions {
            microphone: permission(check_microphone_permission(microphone), "Microphone"),
            accessibility: permission(
                check_accessibility_permission(accessibility_trusted),
                "Accessibility",
            ),
        }
    }

    /// The permissions on Windows: none needs asking for.
    pub fn check_windows() -> (r: Self)
        ensures
            r.microphone.state == PermissionState::NotNeeded,
            r.accessibility.state == PermissionState::NotNeeded,
            r.microphone.name@ == "Microphone"@,
            r.accessibility.name@ == "Accessibility"@,
    {
        Permissions {
            microphone: permission(PermissionState::NotNeeded, "Microphone"),
            accessibility: permission(PermissionState::NotNeeded, "Accessibility"),
        }
    }

    /// The permissions on Linux: none needs asking for.
    pub fn check_linux() -> (r: Self)
        ensures
            r.microphone.state == PermissionState::NotNeeded,
            r.accessibility.state == PermissionState::NotNeeded,
            r.microphone.name@ == "Microphone"@,
            r.accessibility.name@ == "Accessibility"@,
    {
        Permissions {
            microphone: permission(PermissionState::NotNeeded, "Microphone"),
            accessibility: permission(PermissionState::NotNeeded, "Accessibility"),
        }
    }

    /// The permissions for what the host reported.
    pub fn check(host: HostPermissions) -> (r: Self)
        ensures
            r.microphone.name@ == "Microphone"@,
            r.accessibility.name@ == "Accessibility"@,
            match host {
                HostPermissions::Consent { microphone, accessibility_trusted } => r.microphone.state
                    == microphone_state_of(microphone) && r.accessibility.state == (
                if accessibility_trusted {
                    PermissionState::Granted
                } else {
                    PermissionState::Denied
                }),
                HostPermissions::Open => r.microphone.state == PermissionState::NotNeeded
                    && r.accessibility.state == PermissionState::NotNeeded,
            },
    {
        match host {
            HostPermissions::Consent { microphone, accessibility_trusted } => Self::check_macos(
                microphone,
                accessibility_trusted,
            ),
            HostPermissions::Open => Self::check_linux(),
        }
    }

    /// The permission to request for `permission_type`. A host that grants
    /// everything needs no request, whatever the type.
    pub fn request_permission(permission_type: &str, host_asks_consent: bool) -> (r: Result<
        Option<PermissionKind>,
        String,
    >)
        ensures
            !host_asks_consent ==> r == Ok::<Option<PermissionKind>, String>(None),
            host_asks_consent ==> match request_permission_spec(permission_type@) {
                Some(k) => r == Ok::<Option<PermissionKind>, String>(Some(k)),
                None => r matches Err(e) && e@ == "Unknown permission type: "@ + permission_type@,
            },
    {
        if !host_asks_consent {
            return Ok(None);
        }
        match request_permission(permission_type) {
            Ok(k) => Ok(Some(k)),
            Err(e) => Err(e),
        }
    }
}

/// The permission a type names, if any.
pub open spec fn request_permission_spec(t: Seq<char>) -> Option<PermissionKind> {
    if t == "microphone"@ {
        Some(PermissionKind::Microphone)
    } else if t == "accessibility"@ {
        Some(PermissionKind::Accessibility)
    } else {
        None
    }
}

} // verus!
