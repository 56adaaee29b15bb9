//! Device classes and the broadcast channels that are keyed by them.

use vstd::prelude::*;
use crate::text::{chars_of, contains_text, has_substring};

verus! {

/// The two kinds of device that take part in a transfer.
#[derive(Clone, Copy, Debug, PartialEq, Eq, Structural)]
pub enum DeviceClass {
    Mobile,
    Desktop,
}

impl DeviceClass {
    /// The class on the other side of a transfer.
    pub open spec fn spec_other(self) -> DeviceClass {
        match self {
            DeviceClass::Mobile => DeviceClass::Desktop,
            DeviceClass::Desktop => DeviceClass::Mobile,
        }
    }

    /// The class on the other side of a transfer.
    #[verifier::when_used_as_spec(spec_other)]
    pub fn other(self) -> (o: DeviceClass)
        ensures
            o == self.spec_other(),
    {
        match self {
            DeviceClass::Mobile => DeviceClass::Desktop,
            DeviceClass::Desktop => DeviceClass::Mobile,
        }
    }

    /// Whether this is the mobile class.
    pub open spec fn spec_is_mobile(self) -> bool {
        self == DeviceClass::Mobile
    }

    /// Whether this is the mobile class.
    #[verifier::when_used_as_spec(spec_is_mobile)]
    pub fn is_mobile(self) -> (b: bool)
        ensures
            b == self.spec_is_mobile(),
    {
        match self {
            DeviceClass::Mobile => true,
            DeviceClass::Desktop => false,
        }
    }

    /// The class of a device that is, or is not, mobile.
    pub open spec fn spec_from_mobile(mobile: bool) -> DeviceClass {
        if mobile {
            DeviceClass::Mobile
        } else {
            DeviceClass::Desktop
        }
    }

    /// The class of a device that is, or is not, mobile.
    #[verifier::when_used_as_spec(spec_from_mobile)]
    pub fn from_mobile(mobile: bool) -> (c: DeviceClass)
        ensures
            c == Self::spec_from_mobile(mobile),
    {
        if mobile {
            DeviceClass::Mobile
        } else {
            DeviceClass::Desktop
        }
    }

    /// The class of the device that sent `user_agent`.
    pub fn of_user_agent(user_agent: &str) -> (c: DeviceClass)
        ensures
            c == Self::spec_from_mobile(is_mobile_agent(user_agent@)),
    {
        Self::from_mobile(user_agent_is_mobile(user_agent))
    }
}

/// The broadcast channels of the server: the aggregate stream shown to
/// mobile devices, the one shown to desktop devices, and the stream that
/// follows the packaging of an archive.
#[derive(Clone, Copy, Debug, PartialEq, Eq, Structural)]
pub enum Transmission {
    Mobile,
    Zipping,
    Desktop,
}

impl Transmission {
    /// The device class whose transfers this channel reports, if it is an
    /// aggregate channel: each screen watches the other device's activity.
    pub open spec fn spec_reported_class(self) -> Option<DeviceClass> {
        match self {
            Transmission::Mobile => Some(DeviceClass::Desktop),
            Transmission::Desktop => Some(DeviceClass::Mobile),
            Transmission::Zipping => None,
        }
    }

    /// The device class whose transfers this channel reports, if it is an
    /// aggregate channel.
    #[verifier::when_used_as_spec(spec_reported_class)]
    pub fn reported_class(self) -> (c: Option<DeviceClass>)
        ensures
            c == self.spec_reported_class(),
    {
        match self {
            Transmission::Mobile => Some(DeviceClass::Desktop),
            Transmission::Desktop => Some(DeviceClass::Mobile),
            Transmission::Zipping => None,
        }
    }

    /// The aggregate channel that is shown to devices of class `viewer`.
    pub fn for_viewer(viewer: DeviceClass) -> (t: Transmission)
        ensures
            t.spec_reported_class() == Some(viewer.spec_other()),
    {
        match viewer {
            DeviceClass::Mobile => Transmission::Mobile,
            DeviceClass::Desktop => Transmission::Desktop,
        }
    }
}

/// Whether a user agent string names a mobile browser: one of the usual
/// markers stands somewhere in it.
pub open spec fn is_mobile_agent(user_agent: Seq<char>) -> bool {
    ||| has_substring(user_agent, "Mobile"@)
    ||| has_substring(user_agent, "Android"@)
    ||| has_substring(user_agent, "iPhone"@)
    ||| has_substring(user_agent, "iPod"@)
    ||| has_substring(user_agent, "BlackBerry"@)
    ||| has_substring(user_agent, "Windows Phone"@)
    ||| has_substring(user_agent, "Opera Mini"@)
    ||| has_substring(user_agent, "IEMobile"@)
}

/// Whether `user_agent` names a mobile browser.
pub fn user_agent_is_mobile(user_agent: &str) -> (mobile: bool)
    ensures
        mobile == is_mobile_agent(user_agent@),
{
    let agent = chars_of(user_agent);
    contains_text(&agent, "Mobile") || contains_text(&agent, "Android") || contains_text(
        &agent,
        "iPhone",
    ) || contains_text(&agent, "iPod") || contains_text(&agent, "BlackBerry") || contains_text(
        &agent,
        "Windows Phone",
    ) || contains_text(&agent, "Opera Mini") || contains_text(&agent, "IEMobile")
}

} // verus!
