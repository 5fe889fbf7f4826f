//! The operational and administrative states that the network manager reports
//! for a link, with their kebab-case names.
use vstd::prelude::*;
use crate::text::str_eq;

verus! {

/// A link state, as the network manager names it on the bus.
#[derive(Clone, Copy, Debug, PartialEq, Eq, Structural)]
pub enum LinkState {
    Missing,
    Off,
    NoCarrier,
    Dormant,
    DegradedCarrier,
    Carrier,
    Degraded,
    Enslaved,
    Routable,
    Pending,
    Initialized,
    Configuring,
    Configured,
    Unmanaged,
    Failed,
    Linger,
}

/// The kebab-case name of a state, as used for directories and variables.
pub open spec fn state_name(s: LinkState) -> Seq<char> {
    match s {
        LinkState::Missing => "missing"@,
        LinkState::Off => "off"@,
        LinkState::NoCarrier => "no-carrier"@,
        LinkState::Dormant => "dormant"@,
        LinkState::DegradedCarrier => "degraded-carrier"@,
        LinkState::Carrier => "carrier"@,
        LinkState::Degraded => "degraded"@,
        LinkState::Enslaved => "enslaved"@,
        LinkState::Routable => "routable"@,
        LinkState::Pending => "pending"@,
        LinkState::Initialized => "initialized"@,
        LinkState::Configuring => "configuring"@,
        LinkState::Configured => "configured"@,
        LinkState::Unmanaged => "unmanaged"@,
        LinkState::Failed => "failed"@,
        LinkState::Linger => "linger"@,
    }
}

/// The state whose name is `s`, if any.
pub open spec fn parse_state_spec(s: Seq<char>) -> Option<LinkState> {
    if s == "missing"@ {
        Some(LinkState::Missing)
    } else if s == "off"@ {
        Some(LinkState::Off)
    } else if s == "no-carrier"@ {
        Some(LinkState::NoCarrier)
    } else if s == "dormant"@ {
        Some(LinkState::Dormant)
    } else if s == "degraded-carrier"@ {
        Some(LinkState::DegradedCarrier)
    } else if s == "carrier"@ {
        Some(LinkState::Carrier)
    } else if s == "degraded"@ {
        Some(LinkState::Degraded)
    } else if s == "enslaved"@ {
        Some(LinkState::Enslaved)
    } else if s == "routable"@ {
        Some(LinkState::Routable)
    } else if s == "pending"@ {
        Some(LinkState::Pending)
    } else if s == "initialized"@ {
        Some(LinkState::Initialized)
    } else if s == "configuring"@ {
        Some(LinkState::Configuring)
    } else if s == "configured"@ {
        Some(LinkState::Configured)
    } else if s == "unmanaged"@ {
        Some(LinkState::Unmanaged)
    } else if s == "failed"@ {
        Some(LinkState::Failed)
    } else if s == "linger"@ {
        Some(LinkState::Linger)
    } else {
        None
    }
}

/// States in which the link has a carrier.
pub open spec fn has_carrier(s: LinkState) -> bool {
    match s {
        LinkState::DegradedCarrier
        | LinkState::Carrier
        | LinkState::Degraded
        | LinkState::Enslaved
        | LinkState::Routable => true,
        _ => false,
    }
}

impl LinkState {
    /// The kebab-case name of this state.
    pub fn name(&self) -> (r: &'static str)
        ensures
            r@ == state_name(*self),
    {
        match self {
            LinkState::Missing => "missing",
            LinkState::Off => "off",
            LinkState::NoCarrier => "no-carrier",
            LinkState::Dormant => "dormant",
            LinkState::DegradedCarrier => "degraded-carrier",
            LinkState::Carrier => "carrier",
            LinkState::Degraded => "degraded",
            LinkState::Enslaved => "enslaved",
            LinkState::Routable => "routable",
            LinkState::Pending => "pending",
            LinkState::Initialized => "initialized",
            LinkState::Configuring => "configuring",
            LinkState::Configured => "configured",
            LinkState::Unmanaged => "unmanaged",
            LinkState::Failed => "failed",
            LinkState::Linger => "linger",
        }
    }

    /// Whether the link has a carrier in this state.
    pub fn carrier(&self) -> (r: bool)
        ensures
            r == has_carrier(*self),
    {
        match self {
            LinkState::DegradedCarrier
            | LinkState::Carrier
            | LinkState::Degraded
            | LinkState::Enslaved
            | LinkState::Routable => true,
            _ => false,
        }
    }
}

/// Reads a state from its kebab-case name; unknown names give `None`.
pub fn parse_state(s: &str) -> (r: Option<LinkState>)
    ensures
        r == parse_state_spec(s@),
{
    let all: [LinkState; 16] = [
        LinkState::Missing,
        LinkState::Off,
        LinkState::NoCarrier,
        LinkState::Dormant,
        LinkState::DegradedCarrier,
        LinkState::Carrier,
        LinkState::Degraded,
        LinkState::Enslaved,
        LinkState::Routable,
        LinkState::Pending,
        LinkState::Initialized,
        LinkState::Configuring,
        LinkState::Configured,
        LinkState::Unmanaged,
        LinkState::Failed,
        LinkState::Linger,
    ];
    let mut i: usize = 0;
    while i < 16
        invariant
            0 <= i <= 16,
            all@ == seq![
                LinkState::Missing,
                LinkState::Off,
                LinkState::NoCarrier,
                LinkState::Dormant,
                LinkState::DegradedCarrier,
                LinkState::Carrier,
                LinkState::Degraded,
                LinkState::Enslaved,
                LinkState::Routable,
                LinkState::Pending,
                LinkState::Initialized,
                LinkState::Configuring,
                LinkState::Configured,
                LinkState::Unmanaged,
                LinkState::Failed,
                LinkState::Linger,
            ],
            forall|k: int| 0 <= k < i ==> s@ != state_name(#[trigger] all@[k]),
        decreases 16 - i,
    {
        let st = all[i];
        if str_eq(s, st.name()) {
            return Some(st);
        }
        i = i + 1;
    }
    None
}

} // verus!
