//! NAT behaviour discovery (RFC 5780 section 4) as a state machine: the caller
//! performs each probe on one shared UDP socket and reports its outcome; the
//! machine decides the next probe and, in the end, the NAT type.

use crate::addr::{IpAddress, SocketAddress};
use vstd::prelude::*;

verus! {

/// NAT type as determined by RFC 5780 behaviour discovery.
#[derive(Clone, Copy, Debug, PartialEq, Eq, Structural)]
pub enum NatType {
    /// No NAT: the mapped address is the local interface address.
    OpenInternet,
    /// Endpoint-independent mapping, no filtering (full cone).
    EndpointIndependentNoFiltering,
    /// Endpoint-independent mapping, address-dependent filtering.
    EndpointIndependentAddressFiltering,
    /// Endpoint-independent mapping, address- and port-dependent filtering.
    EndpointIndependentAddressPortFiltering,
    /// Address-dependent mapping.
    AddressDependentMapping,
    /// Address- and port-dependent mapping (symmetric NAT).
    AddressPortDependentMapping,
    /// The first Binding Request got no answer.
    NoUdpConnectivity,
    /// The mapping behaviour could not be observed.
    Unknown,
}

/// What the caller has to do next.
#[derive(Clone, Copy, Debug, PartialEq, Eq, Structural)]
pub enum NatProbe {
    /// Test I: a plain Binding Request to the primary server; report the mapped
    /// address and the local interface address the answer arrived on.
    Basic,
    /// Tests II and III: a Binding Request with CHANGE-REQUEST; report whether
    /// any answer arrived in time.
    ChangeRequest { change_ip: bool, change_port: bool },
    /// Test IV: a plain Binding Request to an alternate server; report the
    /// mapped address.
    Alternate,
    /// Discovery is over.
    Finished(NatType),
}

/// What Test I observed.
#[derive(Clone, Copy, Debug, PartialEq, Eq, Structural)]
pub struct BasicAnswer {
    /// Address the server saw.
    pub mapped: SocketAddress,
    /// Local interface address the answer arrived on.
    pub local: IpAddress,
}

/// The outcome of the probe that was asked for.
#[derive(Clone, Copy, Debug, PartialEq, Eq, Structural)]
pub enum NatEvent {
    /// Mapped address and local interface address, or `None` on no answer.
    BasicResult(Option<BasicAnswer>),
    /// Whether an answer to a CHANGE-REQUEST arrived.
    ChangeResult(bool),
    /// Mapped address seen by the alternate server, or `None` on failure.
    AlternateResult(Option<SocketAddress>),
}

#[derive(Clone, Copy, Debug, PartialEq, Eq, Structural)]
pub enum NatStage {
    AwaitBasic,
    AwaitChangeIpPort,
    AwaitChangePort,
    AwaitAlternate,
    Done(NatType),
}

/// Progress of one discovery run.
#[derive(Clone, Copy, Debug, PartialEq, Eq, Structural)]
pub struct NatDiscovery {
    pub stage: NatStage,
    /// Whether an alternate server is available for Test IV.
    pub has_alternate: bool,
    /// Mapped address from Test I.
    pub mapped: SocketAddress,
    /// Whether Test II got an answer.
    pub change_ip_port_ok: bool,
    /// Whether Test III got an answer.
    pub change_port_ok: bool,
}

/// The decision table of RFC 5780: mapping behaviour from Test IV, filtering
/// behaviour from Tests II and III.
pub open spec fn classify(
    mapped: SocketAddress,
    alternate: Option<SocketAddress>,
    change_ip_port_ok: bool,
    change_port_ok: bool,
) -> NatType {
    match alternate {
        None => NatType::Unknown,
        Some(b) => if b == mapped {
            if change_ip_port_ok {
                NatType::EndpointIndependentNoFiltering
            } else if change_port_ok {
                NatType::EndpointIndependentAddressFiltering
            } else {
                NatType::EndpointIndependentAddressPortFiltering
            }
        } else if b.ip == mapped.ip {
            NatType::AddressDependentMapping
        } else {
            NatType::AddressPortDependentMapping
        },
    }
}

/// The probe that a stage waits for.
pub open spec fn probe_of(stage: NatStage) -> NatProbe {
    match stage {
        NatStage::AwaitBasic => NatProbe::Basic,
        NatStage::AwaitChangeIpPort => NatProbe::ChangeRequest { change_ip: true, change_port: true },
        NatStage::AwaitChangePort => NatProbe::ChangeRequest { change_ip: false, change_port: true },
        NatStage::AwaitAlternate => NatProbe::Alternate,
        NatStage::Done(t) => NatProbe::Finished(t),
    }
}

/// Stage after the filtering tests: Test IV if there is an alternate server,
/// otherwise the mapping stays unknown.
pub open spec fn after_filtering(has_alternate: bool) -> NatStage {
    if has_alternate {
        NatStage::AwaitAlternate
    } else {
        NatStage::Done(NatType::Unknown)
    }
}

/// One transition. An event that does not answer the pending probe changes
/// nothing.
pub open spec fn next_discovery(s: NatDiscovery, ev: NatEvent) -> NatDiscovery {
    match (s.stage, ev) {
        (NatStage::AwaitBasic, NatEvent::BasicResult(None)) => NatDiscovery {
            stage: NatStage::Done(NatType::NoUdpConnectivity),
            ..s
        },
        (NatStage::AwaitBasic, NatEvent::BasicResult(Some(a))) => if a.mapped.ip == a.local {
            NatDiscovery { stage: NatStage::Done(NatType::OpenInternet), mapped: a.mapped, ..s }
        } else {
            NatDiscovery { stage: NatStage::AwaitChangeIpPort, mapped: a.mapped, ..s }
        },
        (NatStage::AwaitChangeIpPort, NatEvent::ChangeResult(ok)) => if ok {
            NatDiscovery {
                stage: after_filtering(s.has_alternate),
                change_ip_port_ok: true,
                ..s
            }
        } else {
            NatDiscovery { stage: NatStage::AwaitChangePort, change_ip_port_ok: false, ..s }
        },
        (NatStage::AwaitChangePort, NatEvent::ChangeResult(ok)) => NatDiscovery {
            stage: after_filtering(s.has_alternate),
            change_port_ok: ok,
            ..s
        },
        (NatStage::AwaitAlternate, NatEvent::AlternateResult(r)) => NatDiscovery {
            stage: NatStage::Done(
                classify(s.mapped, r, s.change_ip_port_ok, s.change_port_ok),
            ),
            ..s
        },
        _ => s,
    }
}

impl NatDiscovery {
    /// Starts a run; the first probe is Test I.
    pub fn new(has_alternate: bool) -> (r: NatDiscovery)
        ensures
            r.stage == NatStage::AwaitBasic,
            r.has_alternate == has_alternate,
            !r.change_ip_port_ok,
            !r.change_port_ok,
    {
        NatDiscovery {
            stage: NatStage::AwaitBasic,
            has_alternate,
            mapped: SocketAddress { ip: IpAddress::V4(0), port: 0 },
            change_ip_port_ok: false,
            change_port_ok: false,
        }
    }

    /// The probe the run waits for.
    pub fn probe(&self) -> (r: NatProbe)
        ensures
            r == probe_of(self.stage),
    {
        match self.stage {
            NatStage::AwaitBasic => NatProbe::Basic,
            NatStage::AwaitChangeIpPort => NatProbe::ChangeRequest {
                change_ip: true,
                change_port: true,
            },
            NatStage::AwaitChangePort => NatProbe::ChangeRequest {
                change_ip: false,
                change_port: true,
            },
            NatStage::AwaitAlternate => NatProbe::Alternate,
            NatStage::Done(t) => NatProbe::Finished(t),
        }
    }

    fn filtering_done(&mut self)
        ensures
            *final(self) == (NatDiscovery { stage: after_filtering(old(self).has_alternate), ..*old(self) }),
    {
        if self.has_alternate {
            self.stage = NatStage::AwaitAlternate;
        } else {
            self.stage = NatStage::Done(NatType::Unknown);
        }
    }

    /// Feeds the outcome of the pending probe and returns the next one.
    pub fn step(&mut self, ev: NatEvent) -> (r: NatProbe)
        ensures
            *final(self) == next_discovery(*old(self), ev),
            r == probe_of(final(self).stage),
    {
        match (self.stage, ev) {
            (NatStage::AwaitBasic, NatEvent::BasicResult(None)) => {
                self.stage = NatStage::Done(NatType::NoUdpConnectivity);
            },
            (NatStage::AwaitBasic, NatEvent::BasicResult(Some(a))) => {
                self.mapped = a.mapped;
                if a.mapped.ip == a.local {
                    self.stage = NatStage::Done(NatType::OpenInternet);
                } else {
                    self.stage = NatStage::AwaitChangeIpPort;
                }
            },
            (NatStage::AwaitChangeIpPort, NatEvent::ChangeResult(ok)) => {
                self.change_ip_port_ok = ok;
                if ok {
                    self.filtering_done();
                } else {
                    self.stage = NatStage::AwaitChangePort;
                }
            },
            (NatStage::AwaitChangePort, NatEvent::ChangeResult(ok)) => {
                self.change_port_ok = ok;
                self.filtering_done();
            },
            (NatStage::AwaitAlternate, NatEvent::AlternateResult(r)) => {
                let t = classify_exec(self.mapped, r, self.change_ip_port_ok, self.change_port_ok);
                self.stage = NatStage::Done(t);
            },
            _ => {},
        }
        self.probe()
    }
}

/// Applies the decision table of RFC 5780.
pub fn classify_exec(
    mapped: SocketAddress,
    alternate: Option<SocketAddress>,
    change_ip_port_ok: bool,
    change_port_ok: bool,
) -> (r: NatType)
    ensures
        r == classify(mapped, alternate, change_ip_port_ok, change_port_ok),
{
    match alternate {
        None => NatType::Unknown,
        Some(b) => if b == mapped {
            if change_ip_port_ok {
                NatType::EndpointIndependentNoFiltering
            } else if change_port_ok {
                NatType::EndpointIndependentAddressFiltering
            } else {
                NatType::EndpointIndependentAddressPortFiltering
            }
        } else if b.ip == mapped.ip {
            NatType::AddressDependentMapping
        } else {
            NatType::AddressPortDependentMapping
        },
    }
}

/// The state after Tests I to IV with the given outcomes; Test III only runs
/// when Test II got no answer.
pub open spec fn after_full_run(
    s0: NatDiscovery,
    a: BasicAnswer,
    change_ip_port_ok: bool,
    change_port_ok: bool,
    alternate: Option<SocketAddress>,
) -> NatDiscovery {
    let s1 = next_discovery(s0, NatEvent::BasicResult(Some(a)));
    let s2 = next_discovery(s1, NatEvent::ChangeResult(change_ip_port_ok));
    let s3 = if change_ip_port_ok {
        s2
    } else {
        next_discovery(s2, NatEvent::ChangeResult(change_port_ok))
    };
    next_discovery(s3, NatEvent::AlternateResult(alternate))
}

/// Behind a NAT, with an alternate server, a full run ends with the type the
/// RFC 5780 decision table gives for the four test outcomes.
pub proof fn lemma_full_run_classifies(
    s0: NatDiscovery,
    a: BasicAnswer,
    change_ip_port_ok: bool,
    change_port_ok: bool,
    alternate: Option<SocketAddress>,
)
    requires
        s0.stage == NatStage::AwaitBasic,
        s0.has_alternate,
        a.mapped.ip != a.local,
    ensures
        after_full_run(s0, a, change_ip_port_ok, change_port_ok, alternate).stage == NatStage::Done(
            classify(a.mapped, alternate, change_ip_port_ok, change_port_ok),
        ),
{
}

/// Test I alone decides when it gets no answer or sees no NAT.
pub proof fn lemma_basic_test_outcomes(s0: NatDiscovery, a: BasicAnswer)
    requires
        s0.stage == NatStage::AwaitBasic,
    ensures
        next_discovery(s0, NatEvent::BasicResult(None)).stage == NatStage::Done(
            NatType::NoUdpConnectivity,
        ),
        a.mapped.ip == a.local ==> next_discovery(s0, NatEvent::BasicResult(Some(a))).stage
            == NatStage::Done(NatType::OpenInternet),
{
}

} // verus!
