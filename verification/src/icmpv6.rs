//! ICMPv6 message types, Neighbor Discovery option codes, the sorted
//! option list and the byte-level decoders of router solicitations and
//! advertisements.
use vstd::prelude::*;
use vstd::std_specs::convert::FromSpecImpl;
use crate::sorted::CodedOption;

verus! {

/// ICMPv6 message type (IANA registry); values without a name of their own
/// are carried by `Unassigned`.
#[derive(Debug, Clone, Copy, PartialEq, Eq, Structural)]
pub enum Icmpv6Type {
    /// 0
    Reserved,
    /// 1
    DestinationUnreachable,
    /// 2
    PacketTooBig,
    /// 3
    TimeExceeded,
    /// 4
    ParameterProblem,
    /// 100
    PrivateExperimentation100,
    /// 101
    PrivateExperimentation101,
    /// 127
    ReservedForExpansionError,
    /// 128
    EchoRequest,
    /// 129
    EchoReply,
    /// 130
    MulticastListenerQuery,
    /// 131
    MulticastListenerReport,
    /// 132
    MulticastListenerDone,
    /// 133
    RouterSolicitation,
    /// 134
    RouterAdvertisement,
    /// 135
    NeighborSolicitation,
    /// 136
    NeighborAdvertisement,
    /// 137
    RedirectMessage,
    /// 138
    RouterRenumbering,
    /// 139
    IcmpNodeInformationQuery,
    /// 140
    IcmpNodeInformationResponse,
    /// 141
    InverseNeighborDiscoverySolicitation,
    /// 142
    InverseNeighborDiscoveryAdvertisement,
    /// 143
    Version2MulticastListenerReport,
    /// 144
    HomeAgentAddressDiscoveryRequest,
    /// 145
    HomeAgentAddressDiscoveryReply,
    /// 146
    MobilePrefixSolicitation,
    /// 147
    MobilePrefixAdvertisement,
    /// 148
    CertificationPathSolicitation,
    /// 149
    CertificationPathAdvertisement,
    /// 150
    IcmpExperimentalMobility,
    /// 151
    MulticastRouterAdvertisement,
    /// 152
    MulticastRouterSolicitation,
    /// 153
    MulticastRouterTermination,
    /// 154
    Fmipv6Messages,
    /// 155
    RplControlMessage,
    /// 156
    Ilnpv6LocatorUpdateMessage,
    /// 157
    DuplicateAddressRequest,
    /// 158
    DuplicateAddressConfirmation,
    /// 159
    MplControlMessage,
    /// 160
    ExtendedEchoRequest,
    /// 161
    ExtendedEchoReply,
    /// 200
    PrivateExperimentation200,
    /// 201
    PrivateExperimentation201,
    /// 255
    ReservedForExpansionInformational,
    /// Any value without a registered name.
    Unassigned(u8),
}

/// The message type that a type byte denotes.
pub open spec fn icmpv6_type_of(value: u8) -> Icmpv6Type {
    if value == 0 {
        Icmpv6Type::Reserved
    } else if value == 1 {
        Icmpv6Type::DestinationUnreachable
    } else if value == 2 {
        Icmpv6Type::PacketTooBig
    } else if value == 3 {
        Icmpv6Type::TimeExceeded
    } else if value == 4 {
        Icmpv6Type::ParameterProblem
    } else if value == 100 {
        Icmpv6Type::PrivateExperimentation100
    } else if value == 101 {
        Icmpv6Type::PrivateExperimentation101
    } else if value == 127 {
        Icmpv6Type::ReservedForExpansionError
    } else if value == 128 {
        Icmpv6Type::EchoRequest
    } else if value == 129 {
        Icmpv6Type::EchoReply
    } else if value == 130 {
        Icmpv6Type::MulticastListenerQuery
    } else if value == 131 {
        Icmpv6Type::MulticastListenerReport
    } else if value == 132 {
        Icmpv6Type::MulticastListenerDone
    } else if value == 133 {
        Icmpv6Type::RouterSolicitation
    } else if value == 134 {
        Icmpv6Type::RouterAdvertisement
    } else if value == 135 {
        Icmpv6Type::NeighborSolicitation
    } else if value == 136 {
        Icmpv6Type::NeighborAdvertisement
    } else if value == 137 {
        Icmpv6Type::RedirectMessage
    } else if value == 138 {
        Icmpv6Type::RouterRenumbering
    } else if value == 139 {
        Icmpv6Type::IcmpNodeInformationQuery
    } else if value == 140 {
        Icmpv6Type::IcmpNodeInformationResponse
    } else if value == 141 {
        Icmpv6Type::InverseNeighborDiscoverySolicitation
    } else if value == 142 {
        Icmpv6Type::InverseNeighborDiscoveryAdvertisement
    } else if value == 143 {
        Icmpv6Type::Version2MulticastListenerReport
    } else if value == 144 {
        Icmpv6Type::HomeAgentAddressDiscoveryRequest
    } else if value == 145 {
        Icmpv6Type::HomeAgentAddressDiscoveryReply
    } else if value == 146 {
        Icmpv6Type::MobilePrefixSolicitation
    } else if value == 147 {
        Icmpv6Type::MobilePrefixAdvertisement
    } else if value == 148 {
        Icmpv6Type::CertificationPathSolicitation
    } else if value == 149 {
        Icmpv6Type::CertificationPathAdvertisement
    } else if value == 150 {
        Icmpv6Type::IcmpExperimentalMobility
    } else if value == 151 {
        Icmpv6Type::MulticastRouterAdvertisement
    } else if value == 152 {
        Icmpv6Type::MulticastRouterSolicitation
    } else if value == 153 {
        Icmpv6Type::MulticastRouterTermination
    } else if value == 154 {
        Icmpv6Type::Fmipv6Messages
    } else if value == 155 {
        Icmpv6Type::RplControlMessage
    } else if value == 156 {
        Icmpv6Type::Ilnpv6LocatorUpdateMessage
    } else if value == 157 {
        Icmpv6Type::DuplicateAddressRequest
    } else if value == 158 {
        Icmpv6Type::DuplicateAddressConfirmation
    } else if value == 159 {
        Icmpv6Type::MplControlMessage
    } else if value == 160 {
        Icmpv6Type::ExtendedEchoRequest
    } else if value == 161 {
        Icmpv6Type::ExtendedEchoReply
    } else if value == 200 {
        Icmpv6Type::PrivateExperimentation200
    } else if value == 201 {
        Icmpv6Type::PrivateExperimentation201
    } else if value == 255 {
        Icmpv6Type::ReservedForExpansionInformational
    } else {
        Icmpv6Type::Unassigned(value)
    }
}

/// The type byte of a message type.
pub open spec fn icmpv6_type_value(t: Icmpv6Type) -> u8 {
    match t {
        Icmpv6Type::Reserved => 0,
        Icmpv6Type::DestinationUnreachable => 1,
        Icmpv6Type::PacketTooBig => 2,
        Icmpv6Type::TimeExceeded => 3,
        Icmpv6Type::ParameterProblem => 4,
        Icmpv6Type::PrivateExperimentation100 => 100,
        Icmpv6Type::PrivateExperimentation101 => 101,
        Icmpv6Type::ReservedForExpansionError => 127,
        Icmpv6Type::EchoRequest => 128,
        Icmpv6Type::EchoReply => 129,
        Icmpv6Type::MulticastListenerQuery => 130,
        Icmpv6Type::MulticastListenerReport => 131,
        Icmpv6Type::MulticastListenerDone => 132,
        Icmpv6Type::RouterSolicitation => 133,
        Icmpv6Type::RouterAdvertisement => 134,
        Icmpv6Type::NeighborSolicitation => 135,
        Icmpv6Type::NeighborAdvertisement => 136,
        Icmpv6Type::RedirectMessage => 137,
        Icmpv6Type::RouterRenumbering => 138,
        Icmpv6Type::IcmpNodeInformationQuery => 139,
        Icmpv6Type::IcmpNodeInformationResponse => 140,
        Icmpv6Type::InverseNeighborDiscoverySolicitation => 141,
        Icmpv6Type::InverseNeighborDiscoveryAdvertisement => 142,
        Icmpv6Type::Version2MulticastListenerReport => 143,
        Icmpv6Type::HomeAgentAddressDiscoveryRequest => 144,
        Icmpv6Type::HomeAgentAddressDiscoveryReply => 145,
        Icmpv6Type::MobilePrefixSolicitation => 146,
        Icmpv6Type::MobilePrefixAdvertisement => 147,
        Icmpv6Type::CertificationPathSolicitation => 148,
        Icmpv6Type::CertificationPathAdvertisement => 149,
        Icmpv6Type::IcmpExperimentalMobility => 150,
        Icmpv6Type::MulticastRouterAdvertisement => 151,
        Icmpv6Type::MulticastRouterSolicitation => 152,
        Icmpv6Type::MulticastRouterTermination => 153,
        Icmpv6Type::Fmipv6Messages => 154,
        Icmpv6Type::RplControlMessage => 155,
        Icmpv6Type::Ilnpv6LocatorUpdateMessage => 156,
        Icmpv6Type::DuplicateAddressRequest => 157,
        Icmpv6Type::DuplicateAddressConfirmation => 158,
        Icmpv6Type::MplControlMessage => 159,
        Icmpv6Type::ExtendedEchoRequest => 160,
        Icmpv6Type::ExtendedEchoReply => 161,
        Icmpv6Type::PrivateExperimentation200 => 200,
        Icmpv6Type::PrivateExperimentation201 => 201,
        Icmpv6Type::ReservedForExpansionInformational => 255,
        Icmpv6Type::Unassigned(n) => n,
    }
}

/// A message type is canonical when it is what its own type byte decodes to:
/// `Unassigned` never carries a value that has a name.
pub open spec fn icmpv6_type_canonical(t: Icmpv6Type) -> bool {
    icmpv6_type_of(icmpv6_type_value(t)) == t
}

impl From<u8> for Icmpv6Type {
    fn from(value: u8) -> (r: Self) {
        match value {
            0 => Icmpv6Type::Reserved,
            1 => Icmpv6Type::DestinationUnreachable,
            2 => Icmpv6Type::PacketTooBig,
            3 => Icmpv6Type::TimeExceeded,
            4 => Icmpv6Type::ParameterProblem,
            100 => Icmpv6Type::PrivateExperimentation100,
            101 => Icmpv6Type::PrivateExperimentation101,
            127 => Icmpv6Type::ReservedForExpansionError,
            128 => Icmpv6Type::EchoRequest,
            129 => Icmpv6Type::EchoReply,
            130 => Icmpv6Type::MulticastListenerQuery,
            131 => Icmpv6Type::MulticastListenerReport,
            132 => Icmpv6Type::MulticastListenerDone,
            133 => Icmpv6Type::RouterSolicitation,
            134 => Icmpv6Type::RouterAdvertisement,
            135 => Icmpv6Type::NeighborSolicitation,
            136 => Icmpv6Type::NeighborAdvertisement,
            137 => Icmpv6Type::RedirectMessage,
            138 => Icmpv6Type::RouterRenumbering,
            139 => Icmpv6Type::IcmpNodeInformationQuery,
            140 => Icmpv6Type::IcmpNodeInformationResponse,
            141 => Icmpv6Type::InverseNeighborDiscoverySolicitation,
            142 => Icmpv6Type::InverseNeighborDiscoveryAdvertisement,
            143 => Icmpv6Type::Version2MulticastListenerReport,
            144 => Icmpv6Type::HomeAgentAddressDiscoveryRequest,
            145 => Icmpv6Type::HomeAgentAddressDiscoveryReply,
            146 => Icmpv6Type::MobilePrefixSolicitation,
            147 => Icmpv6Type::MobilePrefixAdvertisement,
            148 => Icmpv6Type::CertificationPathSolicitation,
            149 => Icmpv6Type::CertificationPathAdvertisement,
            150 => Icmpv6Type::IcmpExperimentalMobility,
            151 => Icmpv6Type::MulticastRouterAdvertisement,
            152 => Icmpv6Type::MulticastRouterSolicitation,
            153 => Icmpv6Type::MulticastRouterTermination,
            154 => Icmpv6Type::Fmipv6Messages,
            155 => Icmpv6Type::RplControlMessage,
            156 => Icmpv6Type::Ilnpv6LocatorUpdateMessage,
            157 => Icmpv6Type::DuplicateAddressRequest,
            158 => Icmpv6Type::DuplicateAddressConfirmation,
            159 => Icmpv6Type::MplControlMessage,
            160 => Icmpv6Type::ExtendedEchoRequest,
            161 => Icmpv6Type::ExtendedEchoReply,
            200 => Icmpv6Type::PrivateExperimentation200,
            201 => Icmpv6Type::PrivateExperimentation201,
            255 => Icmpv6Type::ReservedForExpansionInformational,
            other => Icmpv6Type::Unassigned(other),
        }
    }
}

impl FromSpecImpl<u8> for Icmpv6Type {
    open spec fn obeys_from_spec() -> bool {
        true
    }

    open spec fn from_spec(v: u8) -> Self {
        icmpv6_type_of(v)
    }
}

impl From<Icmpv6Type> for u8 {
    fn from(icmp: Icmpv6Type) -> (r: Self) {
        match icmp {
            Icmpv6Type::Reserved => 0,
            Icmpv6Type::DestinationUnreachable => 1,
            Icmpv6Type::PacketTooBig => 2,
            Icmpv6Type::TimeExceeded => 3,
            Icmpv6Type::ParameterProblem => 4,
            Icmpv6Type::PrivateExperimentation100 => 100,
            Icmpv6Type::PrivateExperimentation101 => 101,
            Icmpv6Type::ReservedForExpansionError => 127,
            Icmpv6Type::EchoRequest => 128,
            Icmpv6Type::EchoReply => 129,
            Icmpv6Type::MulticastListenerQuery => 130,
            Icmpv6Type::MulticastListenerReport => 131,
            Icmpv6Type::MulticastListenerDone => 132,
            Icmpv6Type::RouterSolicitation => 133,
            Icmpv6Type::RouterAdvertisement => 134,
            Icmpv6Type::NeighborSolicitation => 135,
            Icmpv6Type::NeighborAdvertisement => 136,
            Icmpv6Type::RedirectMessage => 137,
            Icmpv6Type::RouterRenumbering => 138,
            Icmpv6Type::IcmpNodeInformationQuery => 139,
            Icmpv6Type::IcmpNodeInformationResponse => 140,
            Icmpv6Type::InverseNeighborDiscoverySolicitation => 141,
            Icmpv6Type::InverseNeighborDiscoveryAdvertisement => 142,
            Icmpv6Type::Version2MulticastListenerReport => 143,
            Icmpv6Type::HomeAgentAddressDiscoveryRequest => 144,
            Icmpv6Type::HomeAgentAddressDiscoveryReply => 145,
            Icmpv6Type::MobilePrefixSolicitation => 146,
            Icmpv6Type::MobilePrefixAdvertisement => 147,
            Icmpv6Type::CertificationPathSolicitation => 148,
            Icmpv6Type::CertificationPathAdvertisement => 149,
            Icmpv6Type::IcmpExperimentalMobility => 150,
            Icmpv6Type::MulticastRouterAdvertisement => 151,
            Icmpv6Type::MulticastRouterSolicitation => 152,
            Icmpv6Type::MulticastRouterTermination => 153,
            Icmpv6Type::Fmipv6Messages => 154,
            Icmpv6Type::RplControlMessage => 155,
            Icmpv6Type::Ilnpv6LocatorUpdateMessage => 156,
            Icmpv6Type::DuplicateAddressRequest => 157,
            Icmpv6Type::DuplicateAddressConfirmation => 158,
            Icmpv6Type::MplControlMessage => 159,
            Icmpv6Type::ExtendedEchoRequest => 160,
            Icmpv6Type::ExtendedEchoReply => 161,
            Icmpv6Type::PrivateExperimentation200 => 200,
            Icmpv6Type::PrivateExperimentation201 => 201,
            Icmpv6Type::ReservedForExpansionInformational => 255,
            Icmpv6Type::Unassigned(n) => n,
        }
    }
}

impl FromSpecImpl<Icmpv6Type> for u8 {
    open spec fn obeys_from_spec() -> bool {
        true
    }

    open spec fn from_spec(v: Icmpv6Type) -> Self {
        icmpv6_type_value(v)
    }
}

/// Decoding a type byte and encoding it again gives the same byte.
pub proof fn lemma_icmpv6_type_value_roundtrip(value: u8)
    ensures
        icmpv6_type_value(icmpv6_type_of(value)) == value,
{
}

/// Encoding a canonical message type and decoding the byte gives it back.
pub proof fn lemma_icmpv6_type_roundtrip(t: Icmpv6Type)
    requires
        icmpv6_type_canonical(t),
    ensures
        icmpv6_type_of(icmpv6_type_value(t)) == t,
{
}

/// Code of a Neighbor Discovery option (IANA registry).
#[derive(Debug, Clone, Copy, PartialEq, Eq, Structural)]
pub enum IcmpV6OptionCode {
    /// Source Link-layer Address
    SourceLinkLayerAddress,
    /// Target Link-layer Address
    TargetLinkLayerAddress,
    /// Prefix Information
    PrefixInformation,
    /// Redirected Header
    RedirectedHeader,
    /// MTU
    MTU,
    /// NBMA Shortcut Limit Option
    NBMAShortcutLimit,
    /// Advertisement Interval Option - ms
    AdvertisementInterval,
    /// Home Agent Information Option
    HomeAgentInformation,
    /// Source Address List
    SourceAddressList,
    /// Target Address List
    TargetAddressList,
    /// CGA option
    CGAOption,
    /// RSA Signature option
    RSASignature,
    /// Timestamp option
    Timestamp,
    /// Nonce option
    Nonce,
    /// Trust Anchor option
    TrustAnchor,
    /// Certificate option
    Certificate,
    /// IP Address/Prefix Option
    IPAddressPrefix,
    /// New Router Prefix Information Option
    NewRouterPrefixInformation,
    /// Link-layer Address Option
    LinkLayerAddress,
    /// Neighbor Advertisement Acknowledgment Option
    NeighborAdvertisementAcknowledgment,
    /// PvD ID Router Advertisement Option
    PvDIDRouterAdvertisement,
    /// MAP Option
    MAP,
    /// Route Information Option
    RouteInformation,
    /// Recursive DNS Server Option
    RecursiveDNSServer,
    /// RA Flags Extension Option
    RAFlagsExtension,
    /// Handover Key Request Option
    HandoverKeyRequest,
    /// Handover Key Reply Option
    HandoverKeyReply,
    /// Handover Assist Information Option
    HandoverAssistInformation,
    /// Mobile Node Identifier Option
    MobileNodeIdentifier,
    /// DNS Search List Option
    DNSSearchList,
    /// Proxy Signature (PS)
    ProxySignature,
    /// Address Registration Option
    AddressRegistration,
    /// 6LoWPAN Context Option
    LowPANContext,
    /// Authoritative Border Router Option
    AuthoritativeBorderRouter,
    /// 6LoWPAN Capability Indication Option (6CIO)
    LowPANCapabilityIndication,
    /// DHCP Captive-Portal
    DHCPCaptivePortal,
    /// PREF64 option
    PREF64,
    /// Crypto-ID Parameters Option (CIPO)
    CryptoIDParameters,
    /// NDP Signature Option (NDPSO)
    NDPSignature,
    /// Resource Directory Address Option
    ResourceDirectoryAddress,
    /// Consistent Uptime Option
    ConsistentUptime,
    /// CARD Request option
    CARDRequest,
    /// CARD Reply option
    CARDReply,
    /// Encrypted DNS Option
    EncryptedDNS,
    /// RFC3692-style Experiment 1
    RFC3692Experiment1,
    /// RFC3692-style Experiment 2
    RFC3692Experiment2,
    /// Any code without a registered name.
    Unknown(u8),
}

/// The option code that a code byte denotes.
pub open spec fn option_code_of(value: u8) -> IcmpV6OptionCode {
    if value == 1 {
        IcmpV6OptionCode::SourceLinkLayerAddress
    } else if value == 2 {
        IcmpV6OptionCode::TargetLinkLayerAddress
    } else if value == 3 {
        IcmpV6OptionCode::PrefixInformation
    } else if value == 4 {
        IcmpV6OptionCode::RedirectedHeader
    } else if value == 5 {
        IcmpV6OptionCode::MTU
    } else if value == 6 {
        IcmpV6OptionCode::NBMAShortcutLimit
    } else if value == 7 {
        IcmpV6OptionCode::AdvertisementInterval
    } else if value == 8 {
        IcmpV6OptionCode::HomeAgentInformation
    } else if value == 9 {
        IcmpV6OptionCode::SourceAddressList
    } else if value == 10 {
        IcmpV6OptionCode::TargetAddressList
    } else if value == 11 {
        IcmpV6OptionCode::CGAOption
    } else if value == 12 {
        IcmpV6OptionCode::RSASignature
    } else if value == 13 {
        IcmpV6OptionCode::Timestamp
    } else if value == 14 {
        IcmpV6OptionCode::Nonce
    } else if value == 15 {
        IcmpV6OptionCode::TrustAnchor
    } else if value == 16 {
        IcmpV6OptionCode::Certificate
    } else if value == 17 {
        IcmpV6OptionCode::IPAddressPrefix
    } else if value == 18 {
        IcmpV6OptionCode::NewRouterPrefixInformation
    } else if value == 19 {
        IcmpV6OptionCode::LinkLayerAddress
    } else if value == 20 {
        IcmpV6OptionCode::NeighborAdvertisementAcknowledgment
    } else if value == 21 {
        IcmpV6OptionCode::PvDIDRouterAdvertisement
    } else if value == 23 {
        IcmpV6OptionCode::MAP
    } else if value == 24 {
        IcmpV6OptionCode::RouteInformation
    } else if value == 25 {
        IcmpV6OptionCode::RecursiveDNSServer
    } else if value == 26 {
        IcmpV6OptionCode::RAFlagsExtension
    } else if value == 27 {
        IcmpV6OptionCode::HandoverKeyRequest
    } else if value == 28 {
        IcmpV6OptionCode::HandoverKeyReply
    } else if value == 29 {
        IcmpV6OptionCode::HandoverAssistInformation
    } else if value == 30 {
        IcmpV6OptionCode::MobileNodeIdentifier
    } else if value == 31 {
        IcmpV6OptionCode::DNSSearchList
    } else if value == 32 {
        IcmpV6OptionCode::ProxySignature
    } else if value == 33 {
        IcmpV6OptionCode::AddressRegistration
    } else if value == 34 {
        IcmpV6OptionCode::LowPANContext
    } else if value == 35 {
        IcmpV6OptionCode::AuthoritativeBorderRouter
    } else if value == 36 {
        IcmpV6OptionCode::LowPANCapabilityIndication
    } else if value == 37 {
        IcmpV6OptionCode::DHCPCaptivePortal
    } else if value == 38 {
        IcmpV6OptionCode::PREF64
    } else if value == 39 {
        IcmpV6OptionCode::CryptoIDParameters
    } else if value == 40 {
        IcmpV6OptionCode::NDPSignature
    } else if value == 41 {
        IcmpV6OptionCode::ResourceDirectoryAddress
    } else if value == 42 {
        IcmpV6OptionCode::ConsistentUptime
    } else if value == 138 {
        IcmpV6OptionCode::CARDRequest
    } else if value == 139 {
        IcmpV6OptionCode::CARDReply
    } else if value == 144 {
        IcmpV6OptionCode::EncryptedDNS
    } else if value == 253 {
        IcmpV6OptionCode::RFC3692Experiment1
    } else if value == 254 {
        IcmpV6OptionCode::RFC3692Experiment2
    } else {
        IcmpV6OptionCode::Unknown(value)
    }
}

/// The code byte of an option code.
pub open spec fn option_code_value(c: IcmpV6OptionCode) -> u8 {
    match c {
        IcmpV6OptionCode::SourceLinkLayerAddress => 1,
        IcmpV6OptionCode::TargetLinkLayerAddress => 2,
        IcmpV6OptionCode::PrefixInformation => 3,
        IcmpV6OptionCode::RedirectedHeader => 4,
        IcmpV6OptionCode::MTU => 5,
        IcmpV6OptionCode::NBMAShortcutLimit => 6,
        IcmpV6OptionCode::AdvertisementInterval => 7,
        IcmpV6OptionCode::HomeAgentInformation => 8,
        IcmpV6OptionCode::SourceAddressList => 9,
        IcmpV6OptionCode::TargetAddressList => 10,
        IcmpV6OptionCode::CGAOption => 11,
        IcmpV6OptionCode::RSASignature => 12,
        IcmpV6OptionCode::Timestamp => 13,
        IcmpV6OptionCode::Nonce => 14,
        IcmpV6OptionCode::TrustAnchor => 15,
        IcmpV6OptionCode::Certificate => 16,
        IcmpV6OptionCode::IPAddressPrefix => 17,
        IcmpV6OptionCode::NewRouterPrefixInformation => 18,
        IcmpV6OptionCode::LinkLayerAddress => 19,
        IcmpV6OptionCode::NeighborAdvertisementAcknowledgment => 20,
        IcmpV6OptionCode::PvDIDRouterAdvertisement => 21,
        IcmpV6OptionCode::MAP => 23,
        IcmpV6OptionCode::RouteInformation => 24,
        IcmpV6OptionCode::RecursiveDNSServer => 25,
        IcmpV6OptionCode::RAFlagsExtension => 26,
        IcmpV6OptionCode::HandoverKeyRequest => 27,
        IcmpV6OptionCode::HandoverKeyReply => 28,
        IcmpV6OptionCode::HandoverAssistInformation => 29,
        IcmpV6OptionCode::MobileNodeIdentifier => 30,
        IcmpV6OptionCode::DNSSearchList => 31,
        IcmpV6OptionCode::ProxySignature => 32,
        IcmpV6OptionCode::AddressRegistration => 33,
        IcmpV6OptionCode::LowPANContext => 34,
        IcmpV6OptionCode::AuthoritativeBorderRouter => 35,
        IcmpV6OptionCode::LowPANCapabilityIndication => 36,
        IcmpV6OptionCode::DHCPCaptivePortal => 37,
        IcmpV6OptionCode::PREF64 => 38,
        IcmpV6OptionCode::CryptoIDParameters => 39,
        IcmpV6OptionCode::NDPSignature => 40,
        IcmpV6OptionCode::ResourceDirectoryAddress => 41,
        IcmpV6OptionCode::ConsistentUptime => 42,
        IcmpV6OptionCode::CARDRequest => 138,
        IcmpV6OptionCode::CARDReply => 139,
        IcmpV6OptionCode::EncryptedDNS => 144,
        IcmpV6OptionCode::RFC3692Experiment1 => 253,
        IcmpV6OptionCode::RFC3692Experiment2 => 254,
        IcmpV6OptionCode::Unknown(n) => n,
    }
}

impl From<u8> for IcmpV6OptionCode {
    fn from(value: u8) -> (r: Self) {
        match value {
            1 => IcmpV6OptionCode::SourceLinkLayerAddress,
            2 => IcmpV6OptionCode::TargetLinkLayerAddress,
            3 => IcmpV6OptionCode::PrefixInformation,
            4 => IcmpV6OptionCode::RedirectedHeader,
            5 => IcmpV6OptionCode::MTU,
            6 => IcmpV6OptionCode::NBMAShortcutLimit,
            7 => IcmpV6OptionCode::AdvertisementInterval,
            8 => IcmpV6OptionCode::HomeAgentInformation,
            9 => IcmpV6OptionCode::SourceAddressList,
            10 => IcmpV6OptionCode::TargetAddressList,
            11 => IcmpV6OptionCode::CGAOption,
            12 => IcmpV6OptionCode::RSASignature,
            13 => IcmpV6OptionCode::Timestamp,
            14 => IcmpV6OptionCode::Nonce,
            15 => IcmpV6OptionCode::TrustAnchor,
            16 => IcmpV6OptionCode::Certificate,
            17 => IcmpV6OptionCode::IPAddressPrefix,
            18 => IcmpV6OptionCode::NewRouterPrefixInformation,
            19 => IcmpV6OptionCode::LinkLayerAddress,
            20 => IcmpV6OptionCode::NeighborAdvertisementAcknowledgment,
            21 => IcmpV6OptionCode::PvDIDRouterAdvertisement,
            23 => IcmpV6OptionCode::MAP,
            24 => IcmpV6OptionCode::RouteInformation,
            25 => IcmpV6OptionCode::RecursiveDNSServer,
            26 => IcmpV6OptionCode::RAFlagsExtension,
            27 => IcmpV6OptionCode::HandoverKeyRequest,
            28 => IcmpV6OptionCode::HandoverKeyReply,
            29 => IcmpV6OptionCode::HandoverAssistInformation,
            30 => IcmpV6OptionCode::MobileNodeIdentifier,
            31 => IcmpV6OptionCode::DNSSearchList,
            32 => IcmpV6OptionCode::ProxySignature,
            33 => IcmpV6OptionCode::AddressRegistration,
            34 => IcmpV6OptionCode::LowPANContext,
            35 => IcmpV6OptionCode::AuthoritativeBorderRouter,
            36 => IcmpV6OptionCode::LowPANCapabilityIndication,
            37 => IcmpV6OptionCode::DHCPCaptivePortal,
            38 => IcmpV6OptionCode::PREF64,
            39 => IcmpV6OptionCode::CryptoIDParameters,
            40 => IcmpV6OptionCode::NDPSignature,
            41 => IcmpV6OptionCode::ResourceDirectoryAddress,
            42 => IcmpV6OptionCode::ConsistentUptime,
            138 => IcmpV6OptionCode::CARDRequest,
            139 => IcmpV6OptionCode::CARDReply,
            144 => IcmpV6OptionCode::EncryptedDNS,
            253 => IcmpV6OptionCode::RFC3692Experiment1,
            254 => IcmpV6OptionCode::RFC3692Experiment2,
            value => IcmpV6OptionCode::Unknown(value),
        }
    }
}

impl FromSpecImpl<u8> for IcmpV6OptionCode {
    open spec fn obeys_from_spec() -> bool {
        true
    }

    open spec fn from_spec(v: u8) -> Self {
        option_code_of(v)
    }
}

impl From<IcmpV6OptionCode> for u8 {
    fn from(value: IcmpV6OptionCode) -> (r: Self) {
        match value {
            IcmpV6OptionCode::SourceLinkLayerAddress => 1,
            IcmpV6OptionCode::TargetLinkLayerAddress => 2,
            IcmpV6OptionCode::PrefixInformation => 3,
            IcmpV6OptionCode::RedirectedHeader => 4,
            IcmpV6OptionCode::MTU => 5,
            IcmpV6OptionCode::NBMAShortcutLimit => 6,
            IcmpV6OptionCode::AdvertisementInterval => 7,
            IcmpV6OptionCode::HomeAgentInformation => 8,
            IcmpV6OptionCode::SourceAddressList => 9,
            IcmpV6OptionCode::TargetAddressList => 10,
            IcmpV6OptionCode::CGAOption => 11,
            IcmpV6OptionCode::RSASignature => 12,
            IcmpV6OptionCode::Timestamp => 13,
            IcmpV6OptionCode::Nonce => 14,
            IcmpV6OptionCode::TrustAnchor => 15,
            IcmpV6OptionCode::Certificate => 16,
            IcmpV6OptionCode::IPAddressPrefix => 17,
            IcmpV6OptionCode::NewRouterPrefixInformation => 18,
            IcmpV6OptionCode::LinkLayerAddress => 19,
            IcmpV6OptionCode::NeighborAdvertisementAcknowledgment => 20,
            IcmpV6OptionCode::PvDIDRouterAdvertisement => 21,
            IcmpV6OptionCode::MAP => 23,
            IcmpV6OptionCode::RouteInformation => 24,
            IcmpV6OptionCode::RecursiveDNSServer => 25,
            IcmpV6OptionCode::RAFlagsExtension => 26,
            IcmpV6OptionCode::HandoverKeyRequest => 27,
            IcmpV6OptionCode::HandoverKeyReply => 28,
            IcmpV6OptionCode::HandoverAssistInformation => 29,
            IcmpV6OptionCode::MobileNodeIdentifier => 30,
            IcmpV6OptionCode::DNSSearchList => 31,
            IcmpV6OptionCode::ProxySignature => 32,
            IcmpV6OptionCode::AddressRegistration => 33,
            IcmpV6OptionCode::LowPANContext => 34,
            IcmpV6OptionCode::AuthoritativeBorderRouter => 35,
            IcmpV6OptionCode::LowPANCapabilityIndication => 36,
            IcmpV6OptionCode::DHCPCaptivePortal => 37,
            IcmpV6OptionCode::PREF64 => 38,
            IcmpV6OptionCode::CryptoIDParameters => 39,
            IcmpV6OptionCode::NDPSignature => 40,
            IcmpV6OptionCode::ResourceDirectoryAddress => 41,
            IcmpV6OptionCode::ConsistentUptime => 42,
            IcmpV6OptionCode::CARDRequest => 138,
            IcmpV6OptionCode::CARDReply => 139,
            IcmpV6OptionCode::EncryptedDNS => 144,
            IcmpV6OptionCode::RFC3692Experiment1 => 253,
            IcmpV6OptionCode::RFC3692Experiment2 => 254,
            IcmpV6OptionCode::Unknown(n) => n,
        }
    }
}

impl FromSpecImpl<IcmpV6OptionCode> for u8 {
    open spec fn obeys_from_spec() -> bool {
        true
    }

    open spec fn from_spec(v: IcmpV6OptionCode) -> Self {
        option_code_value(v)
    }
}

/// Decoding a code byte and encoding it again gives the same byte.
pub proof fn lemma_option_code_value_roundtrip(value: u8)
    ensures
        option_code_value(option_code_of(value)) == value,
{
}

/// A Neighbor Discovery option: its code and its raw body.
#[derive(Debug, Clone, PartialEq, Eq)]
pub enum IcmpV6Option {
    SourceLinkLayerAddress(Vec<u8>),
    TargetLinkLayerAddress(Vec<u8>),
    PrefixInformation(Vec<u8>),
    RedirectedHeader(Vec<u8>),
    MTU(Vec<u8>),
    NBMAShortcutLimit(Vec<u8>),
    AdvertisementInterval(Vec<u8>),
    HomeAgentInformation(Vec<u8>),
    SourceAddressList(Vec<u8>),
    TargetAddressList(Vec<u8>),
    CGAOption(Vec<u8>),
    RSASignature(Vec<u8>),
    Timestamp(Vec<u8>),
    Nonce(Vec<u8>),
    TrustAnchor(Vec<u8>),
    Certificate(Vec<u8>),
    IPAddressPrefix(Vec<u8>),
    NewRouterPrefixInformation(Vec<u8>),
    LinkLayerAddress(Vec<u8>),
    NeighborAdvertisementAcknowledgment(Vec<u8>),
    PvDIDRouterAdvertisement(Vec<u8>),
    MAP(Vec<u8>),
    RouteInformation(Vec<u8>),
    RecursiveDNSServer(Vec<u8>),
    RAFlagsExtension(Vec<u8>),
    HandoverKeyRequest(Vec<u8>),
    HandoverKeyReply(Vec<u8>),
    HandoverAssistInformation(Vec<u8>),
    MobileNodeIdentifier(Vec<u8>),
    DNSSearchList(Vec<u8>),
    ProxySignature(Vec<u8>),
    AddressRegistration(Vec<u8>),
    LowPANContext(Vec<u8>),
    AuthoritativeBorderRouter(Vec<u8>),
    LowPANCapabilityIndication(Vec<u8>),
    DHCPCaptivePortal(Vec<u8>),
    PREF64(Vec<u8>),
    CryptoIDParameters(Vec<u8>),
    NDPSignature(Vec<u8>),
    ResourceDirectoryAddress(Vec<u8>),
    ConsistentUptime(Vec<u8>),
    CARDRequest(Vec<u8>),
    CARDReply(Vec<u8>),
    EncryptedDNS(Vec<u8>),
    RFC3692Experiment1(Vec<u8>),
    RFC3692Experiment2(Vec<u8>),
    UnknownOption(u8, Vec<u8>),
}

impl IcmpV6Option {
    /// The body bytes of this option.
    pub open spec fn spec_data(&self) -> Seq<u8> {
        match self {
            IcmpV6Option::SourceLinkLayerAddress(d) => d@,
            IcmpV6Option::TargetLinkLayerAddress(d) => d@,
            IcmpV6Option::PrefixInformation(d) => d@,
            IcmpV6Option::RedirectedHeader(d) => d@,
            IcmpV6Option::MTU(d) => d@,
            IcmpV6Option::NBMAShortcutLimit(d) => d@,
            IcmpV6Option::AdvertisementInterval(d) => d@,
            IcmpV6Option::HomeAgentInformation(d) => d@,
            IcmpV6Option::SourceAddressList(d) => d@,
            IcmpV6Option::TargetAddressList(d) => d@,
            IcmpV6Option::CGAOption(d) => d@,
            IcmpV6Option::RSASignature(d) => d@,
            IcmpV6Option::Timestamp(d) => d@,
            IcmpV6Option::Nonce(d) => d@,
            IcmpV6Option::TrustAnchor(d) => d@,
            IcmpV6Option::Certificate(d) => d@,
            IcmpV6Option::IPAddressPrefix(d) => d@,
            IcmpV6Option::NewRouterPrefixInformation(d) => d@,
            IcmpV6Option::LinkLayerAddress(d) => d@,
            IcmpV6Option::NeighborAdvertisementAcknowledgment(d) => d@,
            IcmpV6Option::PvDIDRouterAdvertisement(d) => d@,
            IcmpV6Option::MAP(d) => d@,
            IcmpV6Option::RouteInformation(d) => d@,
            IcmpV6Option::RecursiveDNSServer(d) => d@,
            IcmpV6Option::RAFlagsExtension(d) => d@,
            IcmpV6Option::HandoverKeyRequest(d) => d@,
            IcmpV6Option::HandoverKeyReply(d) => d@,
            IcmpV6Option::HandoverAssistInformation(d) => d@,
            IcmpV6Option::MobileNodeIdentifier(d) => d@,
            IcmpV6Option::DNSSearchList(d) => d@,
            IcmpV6Option::ProxySignature(d) => d@,
            IcmpV6Option::AddressRegistration(d) => d@,
            IcmpV6Option::LowPANContext(d) => d@,
            IcmpV6Option::AuthoritativeBorderRouter(d) => d@,
            IcmpV6Option::LowPANCapabilityIndication(d) => d@,
            IcmpV6Option::DHCPCaptivePortal(d) => d@,
            IcmpV6Option::PREF64(d) => d@,
            IcmpV6Option::CryptoIDParameters(d) => d@,
            IcmpV6Option::NDPSignature(d) => d@,
            IcmpV6Option::ResourceDirectoryAddress(d) => d@,
            IcmpV6Option::ConsistentUptime(d) => d@,
            IcmpV6Option::CARDRequest(d) => d@,
            IcmpV6Option::CARDReply(d) => d@,
            IcmpV6Option::EncryptedDNS(d) => d@,
            IcmpV6Option::RFC3692Experiment1(d) => d@,
            IcmpV6Option::RFC3692Experiment2(d) => d@,
            IcmpV6Option::UnknownOption(_, d) => d@,
        }
    }

    /// The option code of this option.
    pub fn option_code(&self) -> (r: IcmpV6OptionCode)
        ensures
            r == option_code_of(self.spec_code()),
    {
        IcmpV6OptionCode::from(self.code())
    }
}

impl CodedOption for IcmpV6Option {
    open spec fn spec_code(&self) -> u8 {
        match self {
            IcmpV6Option::SourceLinkLayerAddress(_) => 1,
            IcmpV6Option::TargetLinkLayerAddress(_) => 2,
            IcmpV6Option::PrefixInformation(_) => 3,
            IcmpV6Option::RedirectedHeader(_) => 4,
            IcmpV6Option::MTU(_) => 5,
            IcmpV6Option::NBMAShortcutLimit(_) => 6,
            IcmpV6Option::AdvertisementInterval(_) => 7,
            IcmpV6Option::HomeAgentInformation(_) => 8,
            IcmpV6Option::SourceAddressList(_) => 9,
            IcmpV6Option::TargetAddressList(_) => 10,
            IcmpV6Option::CGAOption(_) => 11,
            IcmpV6Option::RSASignature(_) => 12,
            IcmpV6Option::Timestamp(_) => 13,
            IcmpV6Option::Nonce(_) => 14,
            IcmpV6Option::TrustAnchor(_) => 15,
            IcmpV6Option::Certificate(_) => 16,
            IcmpV6Option::IPAddressPrefix(_) => 17,
            IcmpV6Option::NewRouterPrefixInformation(_) => 18,
            IcmpV6Option::LinkLayerAddress(_) => 19,
            IcmpV6Option::NeighborAdvertisementAcknowledgment(_) => 20,
            IcmpV6Option::PvDIDRouterAdvertisement(_) => 21,
            IcmpV6Option::MAP(_) => 23,
            IcmpV6Option::RouteInformation(_) => 24,
            IcmpV6Option::RecursiveDNSServer(_) => 25,
            IcmpV6Option::RAFlagsExtension(_) => 26,
            IcmpV6Option::HandoverKeyRequest(_) => 27,
            IcmpV6Option::HandoverKeyReply(_) => 28,
            IcmpV6Option::HandoverAssistInformation(_) => 29,
            IcmpV6Option::MobileNodeIdentifier(_) => 30,
            IcmpV6Option::DNSSearchList(_) => 31,
            IcmpV6Option::ProxySignature(_) => 32,
            IcmpV6Option::AddressRegistration(_) => 33,
            IcmpV6Option::LowPANContext(_) => 34,
            IcmpV6Option::AuthoritativeBorderRouter(_) => 35,
            IcmpV6Option::LowPANCapabilityIndication(_) => 36,
            IcmpV6Option::DHCPCaptivePortal(_) => 37,
            IcmpV6Option::PREF64(_) => 38,
            IcmpV6Option::CryptoIDParameters(_) => 39,
            IcmpV6Option::NDPSignature(_) => 40,
            IcmpV6Option::ResourceDirectoryAddress(_) => 41,
            IcmpV6Option::ConsistentUptime(_) => 42,
            IcmpV6Option::CARDRequest(_) => 138,
            IcmpV6Option::CARDReply(_) => 139,
            IcmpV6Option::EncryptedDNS(_) => 144,
            IcmpV6Option::RFC3692Experiment1(_) => 253,
            IcmpV6Option::RFC3692Experiment2(_) => 254,
            IcmpV6Option::UnknownOption(code, _) => *code,
        }
    }

    fn code(&self) -> (r: u8)
    {
        match self {
            IcmpV6Option::SourceLinkLayerAddress(_) => 1,
            IcmpV6Option::TargetLinkLayerAddress(_) => 2,
            IcmpV6Option::PrefixInformation(_) => 3,
            IcmpV6Option::RedirectedHeader(_) => 4,
            IcmpV6Option::MTU(_) => 5,
            IcmpV6Option::NBMAShortcutLimit(_) => 6,
            IcmpV6Option::AdvertisementInterval(_) => 7,
            IcmpV6Option::HomeAgentInformation(_) => 8,
            IcmpV6Option::SourceAddressList(_) => 9,
            IcmpV6Option::TargetAddressList(_) => 10,
            IcmpV6Option::CGAOption(_) => 11,
            IcmpV6Option::RSASignature(_) => 12,
            IcmpV6Option::Timestamp(_) => 13,
            IcmpV6Option::Nonce(_) => 14,
            IcmpV6Option::TrustAnchor(_) => 15,
            IcmpV6Option::Certificate(_) => 16,
            IcmpV6Option::IPAddressPrefix(_) => 17,
            IcmpV6Option::NewRouterPrefixInformation(_) => 18,
            IcmpV6Option::LinkLayerAddress(_) => 19,
            IcmpV6Option::NeighborAdvertisementAcknowledgment(_) => 20,
            IcmpV6Option::PvDIDRouterAdvertisement(_) => 21,
            IcmpV6Option::MAP(_) => 23,
            IcmpV6Option::RouteInformation(_) => 24,
            IcmpV6Option::RecursiveDNSServer(_) => 25,
            IcmpV6Option::RAFlagsExtension(_) => 26,
            IcmpV6Option::HandoverKeyRequest(_) => 27,
            IcmpV6Option::HandoverKeyReply(_) => 28,
            IcmpV6Option::HandoverAssistInformation(_) => 29,
            IcmpV6Option::MobileNodeIdentifier(_) => 30,
            IcmpV6Option::DNSSearchList(_) => 31,
            IcmpV6Option::ProxySignature(_) => 32,
            IcmpV6Option::AddressRegistration(_) => 33,
            IcmpV6Option::LowPANContext(_) => 34,
            IcmpV6Option::AuthoritativeBorderRouter(_) => 35,
            IcmpV6Option::LowPANCapabilityIndication(_) => 36,
            IcmpV6Option::DHCPCaptivePortal(_) => 37,
            IcmpV6Option::PREF64(_) => 38,
            IcmpV6Option::CryptoIDParameters(_) => 39,
            IcmpV6Option::NDPSignature(_) => 40,
            IcmpV6Option::ResourceDirectoryAddress(_) => 41,
            IcmpV6Option::ConsistentUptime(_) => 42,
            IcmpV6Option::CARDRequest(_) => 138,
            IcmpV6Option::CARDReply(_) => 139,
            IcmpV6Option::EncryptedDNS(_) => 144,
            IcmpV6Option::RFC3692Experiment1(_) => 253,
            IcmpV6Option::RFC3692Experiment2(_) => 254,
            IcmpV6Option::UnknownOption(code, _) => *code,
        }
    }

}

impl View for IcmpV6Option {
    type V = (u8, Seq<u8>);

    open spec fn view(&self) -> (u8, Seq<u8>) {
        (self.spec_code(), self.spec_data())
    }
}

} // verus!
