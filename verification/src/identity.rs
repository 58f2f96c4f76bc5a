//! This device's identity: its stable id, its display name and platform.

use vstd::prelude::*;
use crate::models::DeviceIdentity;
use crate::text::{trim, trimmed};

verus! {

/// A lowercase hexadecimal digit character.
pub open spec fn is_lower_hex_char(c: char) -> bool {
    ('0' <= c && c <= '9') || ('a' <= c && c <= 'f')
}

/// The text of a random (version 4) UUID in its hyphenated lowercase form,
/// such as `67e55044-10b1-426f-9247-bb680e5fe0c8`.
pub open spec fn is_v4_uuid_text(s: Seq<char>) -> bool {
    &&& s.len() == 36
    &&& forall|i: int|
        0 <= i < 36 ==> if i == 8 || i == 13 || i == 18 || i == 23 {
            #[trigger] s[i] == '-'
        } else {
            is_lower_hex_char(s[i])
        }
    &&& s[14] == '4'
    &&& (s[19] == '8' || s[19] == '9' || s[19] == 'a' || s[19] == 'b')
}

/// A fresh random identifier: `uuid::Uuid::new_v4`, written with
/// `to_string`, which gives the hyphenated lowercase form. Two calls give
/// unrelated values; only the form of the text is stated.
#[verifier::external_body]
pub(crate) fn random_uuid_text() -> (s: String)
    ensures
        is_v4_uuid_text(s@),
{
    uuid::Uuid::new_v4().to_string()
}

/// The operating system the application runs on.
#[derive(Clone, Copy, Debug, PartialEq, Eq)]
pub enum OperatingSystem {
    Mac,
    Windows,
    Other,
}

/// The platform name announced for an operating system.
pub open spec fn platform_text(os: OperatingSystem) -> Seq<char> {
    match os {
        OperatingSystem::Mac => "mac"@,
        OperatingSystem::Windows => "windows"@,
        OperatingSystem::Other => "other"@,
    }
}

/// The platform name announced for `os`.
pub fn platform_name(os: OperatingSystem) -> (r: &'static str)
    ensures
        r@ == platform_text(os),
{
    match os {
        OperatingSystem::Mac => "mac",
        OperatingSystem::Windows => "windows",
        OperatingSystem::Other => "other",
    }
}

/// What a finished command reported: whether it succeeded, and its standard
/// output decoded as text.
#[derive(Clone, Debug, PartialEq, Eq)]
pub struct CommandOutput {
    pub success: bool,
    pub stdout: String,
}

/// The device name the operating system itself reports: on a Mac, the
/// trimmed output of the computer-name tool when it succeeded; on Windows,
/// the `COMPUTERNAME` variable; elsewhere none.
pub fn platform_device_name(
    os: OperatingSystem,
    computer_name_tool: Option<CommandOutput>,
    computer_name_variable: Option<String>,
) -> (r: Option<String>)
    ensures
        os == OperatingSystem::Mac ==> match computer_name_tool {
            Some(o) => if o.success {
                r matches Some(n) && n@ == trimmed(o.stdout@)
            } else {
                r is None
            },
            None => r is None,
        },
        os == OperatingSystem::Windows ==> r == computer_name_variable,
        os == OperatingSystem::Other ==> r is None,
{
    match os {
        OperatingSystem::Mac => match computer_name_tool {
            Some(o) => if o.success {
                Some(trim(o.stdout.as_str()))
            } else {
                None
            },
            None => None,
        },
        OperatingSystem::Windows => computer_name_variable,
        OperatingSystem::Other => None,
    }
}

/// The device name from the environment: `COMPUTERNAME`, else `HOSTNAME`.
pub fn environment_device_name(computer_name: Option<String>, hostname: Option<String>) -> (r:
    Option<String>)
    ensures
        computer_name is Some ==> r == computer_name,
        computer_name is None ==> r == hostname,
{
    match computer_name {
        Some(n) => Some(n),
        None => hostname,
    }
}

/// The name used when no usable device name is found.
pub open spec fn fallback_device_name() -> Seq<char> {
    "FileDrop Device"@
}

/// The name this device shows: the platform's name if it has one, else the
/// environment's; trimmed; and the fallback name when that leaves nothing.
pub open spec fn chosen_device_name(platform: Option<Seq<char>>, environment: Option<Seq<char>>) -> Seq<
    char,
> {
    let n = if platform is Some {
        platform
    } else {
        environment
    };
    match n {
        Some(s) => if trimmed(s).len() > 0 {
            trimmed(s)
        } else {
            fallback_device_name()
        },
        None => fallback_device_name(),
    }
}

/// The name this device shows, from the name the platform reports and the
/// one the environment gives.
pub fn system_device_name(platform: Option<String>, environment: Option<String>) -> (r: String)
    ensures
        r@ == chosen_device_name(
            match platform {
                Some(s) => Some(s@),
                None => None,
            },
            match environment {
                Some(s) => Some(s@),
                None => None,
            },
        ),
{
    let n = match platform {
        Some(p) => Some(p),
        None => environment,
    };
    match n {
        Some(s) => {
            let t = trim(s.as_str());
            if t.as_str().is_empty() {
                "FileDrop Device".to_owned()
            } else {
                t
            }
        },
        None => "FileDrop Device".to_owned(),
    }
}

/// This device's identity at start-up: the stored identity keeps its id,
/// and takes the current name and platform; without a readable stored
/// identity a fresh random id is made.
pub fn resolve_identity(stored: Option<DeviceIdentity>, name: String, platform: String) -> (r:
    DeviceIdentity)
    ensures
        r.name@ == name@,
        r.platform@ == platform@,
        stored matches Some(s) ==> r.id@ == s.id@,
        stored is None ==> is_v4_uuid_text(r.id@),
{
    match stored {
        Some(s) => DeviceIdentity { id: s.id, name, platform },
        None => DeviceIdentity { id: random_uuid_text(), name, platform },
    }
}

} // verus!
