//! A peer's answer to a proposed tunnel, stored as a small integer code.

use vstd::prelude::*;

verus! {

/// Answer state of one side of a tunnel descriptor.
#[derive(Clone, Copy, Debug, PartialEq, Eq, Structural)]
pub enum WireguardAnswered {
    Unanswered,
    Answered,
    RejectedGeneric,
    RejectedNoIpStack,
    /// A code outside the known set.
    Unknown,
}

pub open spec fn answered_of_code(v: i16) -> WireguardAnswered {
    if v == 0 {
        WireguardAnswered::Unanswered
    } else if v == 1 {
        WireguardAnswered::Answered
    } else if v == 2 {
        WireguardAnswered::RejectedGeneric
    } else if v == 3 {
        WireguardAnswered::RejectedNoIpStack
    } else {
        WireguardAnswered::Unknown
    }
}

pub open spec fn code_of_answered(a: WireguardAnswered) -> i16 {
    match a {
        WireguardAnswered::Unanswered => 0i16,
        WireguardAnswered::Answered => 1i16,
        WireguardAnswered::RejectedGeneric => 2i16,
        WireguardAnswered::RejectedNoIpStack => 3i16,
        WireguardAnswered::Unknown => -1i16,
    }
}

impl From<i16> for WireguardAnswered {
    fn from(value: i16) -> (r: WireguardAnswered) {
        if value == 0 {
            WireguardAnswered::Unanswered
        } else if value == 1 {
            WireguardAnswered::Answered
        } else if value == 2 {
            WireguardAnswered::RejectedGeneric
        } else if value == 3 {
            WireguardAnswered::RejectedNoIpStack
        } else {
            WireguardAnswered::Unknown
        }
    }
}

impl vstd::std_specs::convert::FromSpecImpl<i16> for WireguardAnswered {
    open spec fn obeys_from_spec() -> bool {
        true
    }

    open spec fn from_spec(v: i16) -> WireguardAnswered {
        answered_of_code(v)
    }
}

impl From<WireguardAnswered> for i16 {
    fn from(answered: WireguardAnswered) -> (r: i16) {
        match answered {
            WireguardAnswered::Unanswered => 0,
            WireguardAnswered::Answered => 1,
            WireguardAnswered::RejectedGeneric => 2,
            WireguardAnswered::RejectedNoIpStack => 3,
            WireguardAnswered::Unknown => -1,
        }
    }
}

impl vstd::std_specs::convert::FromSpecImpl<WireguardAnswered> for i16 {
    open spec fn obeys_from_spec() -> bool {
        true
    }

    open spec fn from_spec(v: WireguardAnswered) -> i16 {
        code_of_answered(v)
    }
}

} // verus!
