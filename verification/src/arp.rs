//! Construction of Ethernet II frames that carry one ARP message.

use crate::address::HardwareAddress;
use crate::link::ETHERNET_HEADER_LEN;
use vstd::prelude::*;

verus! {

/// Length of the fixed part of an ARP message, before its four addresses.
pub const ARP_FIXED_LEN: usize = 8;

/// Ether type that marks an Ethernet payload as an ARP message.
pub const ETHER_TYPE_ARP: u16 = 0x0806;

/// The kind of link whose hardware addresses an ARP message carries.
#[derive(Debug, Clone, Copy, PartialEq, Eq)]
pub enum HardwareType {
    /// Ethernet, with six-octet addresses.
    Ethernet,
    /// EUI-64, with eight-octet addresses.
    Eui64,
}

/// The protocol whose addresses an ARP message resolves.
#[derive(Debug, Clone, Copy, PartialEq, Eq)]
pub enum ProtocolType {
    /// IPv4, with four-octet addresses.
    Ipv4,
    /// IPv6, with sixteen-octet addresses.
    Ipv6,
}

/// What the sender of an ARP message is doing.
#[derive(Debug, Clone, Copy, PartialEq, Eq)]
pub enum ArpOperation {
    /// Asking who holds the target protocol address.
    Request,
    /// Answering such a question.
    Reply,
}

/// Why no frame was built.
#[derive(Debug, Clone, Copy, PartialEq, Eq)]
pub enum BuildError {
    /// An address does not have the size that its hardware or protocol type
    /// prescribes.
    InvalidFieldSize,
}

/// Everything needed to build one Ethernet frame carrying an ARP message.
#[derive(Debug, Clone, PartialEq, Eq)]
pub struct ArpFrameSpec {
    /// Source address of the enclosing Ethernet header.
    pub ethernet_source: HardwareAddress,
    /// Destination address of the enclosing Ethernet header.
    pub ethernet_destination: HardwareAddress,
    /// Kind of hardware address in the message.
    pub hardware_type: HardwareType,
    /// Kind of protocol address in the message.
    pub protocol_type: ProtocolType,
    /// Request or reply.
    pub operation: ArpOperation,
    /// Hardware address of the sender.
    pub sender_hardware_address: Vec<u8>,
    /// Protocol address of the sender.
    pub sender_protocol_address: Vec<u8>,
    /// Hardware address of the target.
    pub target_hardware_address: Vec<u8>,
    /// Protocol address of the target.
    pub target_protocol_address: Vec<u8>,
}

/// The number that identifies a hardware type on the wire.
pub open spec fn hardware_code(hardware: HardwareType) -> u16 {
    match hardware {
        HardwareType::Ethernet => 1,
        HardwareType::Eui64 => 27,
    }
}

/// The size in octets of an address of the given hardware type.
pub open spec fn hardware_address_size(hardware: HardwareType) -> nat {
    match hardware {
        HardwareType::Ethernet => 6,
        HardwareType::Eui64 => 8,
    }
}

/// The ether type that identifies a protocol on the wire.
pub open spec fn protocol_code(protocol: ProtocolType) -> u16 {
    match protocol {
        ProtocolType::Ipv4 => 0x0800,
        ProtocolType::Ipv6 => 0x86DD,
    }
}

/// The size in octets of an address of the given protocol.
pub open spec fn protocol_address_size(protocol: ProtocolType) -> nat {
    match protocol {
        ProtocolType::Ipv4 => 4,
        ProtocolType::Ipv6 => 16,
    }
}

/// The number that identifies an operation on the wire.
pub open spec fn operation_code(operation: ArpOperation) -> u16 {
    match operation {
        ArpOperation::Request => 1,
        ArpOperation::Reply => 2,
    }
}

impl HardwareType {
    /// The number that identifies this hardware type on the wire.
    pub fn code(&self) -> (r: u16)
        ensures
            r == hardware_code(*self),
    {
        match self {
            HardwareType::Ethernet => 1,
            HardwareType::Eui64 => 27,
        }
    }

    /// The size in octets of an address of this hardware type.
    pub fn address_size(&self) -> (r: usize)
        ensures
            r == hardware_address_size(*self),
    {
        match self {
            HardwareType::Ethernet => 6,
            HardwareType::Eui64 => 8,
        }
    }
}

impl ProtocolType {
    /// The ether type that identifies this protocol on the wire.
    pub fn code(&self) -> (r: u16)
        ensures
            r == protocol_code(*self),
    {
        match self {
            ProtocolType::Ipv4 => 0x0800,
            ProtocolType::Ipv6 => 0x86DD,
        }
    }

    /// The size in octets of an address of this protocol.
    pub fn address_size(&self) -> (r: usize)
        ensures
            r == protocol_address_size(*self),
    {
        match self {
            ProtocolType::Ipv4 => 4,
            ProtocolType::Ipv6 => 16,
        }
    }
}

impl ArpOperation {
    /// The number that identifies this operation on the wire.
    pub fn code(&self) -> (r: u16)
        ensures
            r == operation_code(*self),
    {
        match self {
            ArpOperation::Request => 1,
            ArpOperation::Reply => 2,
        }
    }
}

/// A 16-bit value in network byte order.
pub open spec fn be16(v: u16) -> Seq<u8> {
    seq![(v / 256) as u8, (v % 256) as u8]
}

/// An Ethernet II header: destination, source, ether type.
pub open spec fn ethernet_header_bytes(
    destination: Seq<u8>,
    source: Seq<u8>,
    ether_type: u16,
) -> Seq<u8> {
    destination + source + be16(ether_type)
}

/// An ARP message: hardware type, protocol type, the two address sizes,
/// operation, then sender hardware, sender protocol, target hardware and
/// target protocol address.
pub open spec fn arp_message_bytes(
    hardware: u16,
    protocol: u16,
    operation: u16,
    sender_hardware: Seq<u8>,
    sender_protocol: Seq<u8>,
    target_hardware: Seq<u8>,
    target_protocol: Seq<u8>,
) -> Seq<u8> {
    be16(hardware) + be16(protocol) + seq![
        sender_hardware.len() as u8,
        sender_protocol.len() as u8,
    ] + be16(operation) + sender_hardware + sender_protocol + target_hardware + target_protocol
}

/// An Ethernet II header marked as ARP, immediately followed by the message.
pub open spec fn ethernet_arp_bytes(
    source: Seq<u8>,
    destination: Seq<u8>,
    hardware: u16,
    protocol: u16,
    operation: u16,
    sender_hardware: Seq<u8>,
    sender_protocol: Seq<u8>,
    target_hardware: Seq<u8>,
    target_protocol: Seq<u8>,
) -> Seq<u8> {
    ethernet_header_bytes(destination, source, ETHER_TYPE_ARP) + arp_message_bytes(
        hardware,
        protocol,
        operation,
        sender_hardware,
        sender_protocol,
        target_hardware,
        target_protocol,
    )
}

/// Whether all four addresses have the sizes that the declared hardware and
/// protocol types prescribe.
pub open spec fn sizes_match(spec: ArpFrameSpec) -> bool {
    &&& spec.sender_hardware_address@.len() == hardware_address_size(spec.hardware_type)
    &&& spec.target_hardware_address@.len() == hardware_address_size(spec.hardware_type)
    &&& spec.sender_protocol_address@.len() == protocol_address_size(spec.protocol_type)
    &&& spec.target_protocol_address@.len() == protocol_address_size(spec.protocol_type)
}

/// The bytes of the frame that `spec` describes.
pub open spec fn arp_frame_bytes(spec: ArpFrameSpec) -> Seq<u8> {
    ethernet_arp_bytes(
        spec.ethernet_source@,
        spec.ethernet_destination@,
        hardware_code(spec.hardware_type),
        protocol_code(spec.protocol_type),
        operation_code(spec.operation),
        spec.sender_hardware_address@,
        spec.sender_protocol_address@,
        spec.target_hardware_address@,
        spec.target_protocol_address@,
    )
}

/// Serializes an Ethernet II header and an ARP message with `etherparse`:
/// `ArpPacket::new`, then `PacketBuilder::ethernet2(..).arp(..)` written
/// into a fresh vector.
///
/// `ArpPacket::new` accepts the addresses when the two hardware addresses
/// have one length, the two protocol addresses have one length, and neither
/// length exceeds 255; writing into a vector cannot fail. The bytes written
/// are the header (destination, source, ether type `0x0806`) followed by
/// the message, every 16-bit field in network byte order.
#[verifier::external_body]
fn serialize_ethernet_arp(
    spec: &ArpFrameSpec,
    hardware: u16,
    protocol: u16,
    operation: u16,
) -> (r: Option<Vec<u8>>)
    ensures
        (spec.sender_hardware_address@.len() == spec.target_hardware_address@.len()
            && spec.sender_protocol_address@.len() == spec.target_protocol_address@.len()
            && spec.sender_hardware_address@.len() <= 255 && spec.sender_protocol_address@.len()
            <= 255) ==> r is Some,
        r is Some ==> r->Some_0@ == ethernet_arp_bytes(
            spec.ethernet_source@,
            spec.ethernet_destination@,
            hardware,
            protocol,
            operation,
            spec.sender_hardware_address@,
            spec.sender_protocol_address@,
            spec.target_hardware_address@,
            spec.target_protocol_address@,
        ),
{
    let message = etherparse::ArpPacket::new(
        etherparse::ArpHardwareId(hardware),
        etherparse::EtherType(protocol),
        etherparse::ArpOperation(operation),
        &spec.sender_hardware_address,
        &spec.sender_protocol_address,
        &spec.target_hardware_address,
        &spec.target_protocol_address,
    ).ok()?;
    let (source, destination) = (spec.ethernet_source, spec.ethernet_destination);
    let builder = etherparse::PacketBuilder::ethernet2(source, destination).arp(message);
    let mut frame = Vec::<u8>::with_capacity(builder.size());
    builder.write(&mut frame).ok()?;
    Some(frame)
}

/// Builds the Ethernet frame that carries the ARP message described by
/// `spec`.
///
/// Fails with `InvalidFieldSize` exactly when a hardware address differs in
/// size from what the hardware type prescribes, or a protocol address from
/// what the protocol type prescribes. Otherwise the result is the Ethernet
/// header followed at once by the ARP message, in network byte order.
pub fn build_arp_frame(spec: &ArpFrameSpec) -> (r: Result<Vec<u8>, BuildError>)
    ensures
        sizes_match(*spec) ==> r is Ok && r->Ok_0@ == arp_frame_bytes(*spec),
        !sizes_match(*spec) ==> r == Err::<Vec<u8>, BuildError>(BuildError::InvalidFieldSize),
        r is Ok ==> r->Ok_0@.len() == ETHERNET_HEADER_LEN + ARP_FIXED_LEN + 2 * (
        hardware_address_size(spec.hardware_type) + protocol_address_size(spec.protocol_type)),
{
    let hardware_size = spec.hardware_type.address_size();
    let protocol_size = spec.protocol_type.address_size();
    if spec.sender_hardware_address.len() != hardware_size
        || spec.target_hardware_address.len() != hardware_size
        || spec.sender_protocol_address.len() != protocol_size
        || spec.target_protocol_address.len() != protocol_size {
        return Err(BuildError::InvalidFieldSize);
    }
    let frame = serialize_ethernet_arp(
        spec,
        spec.hardware_type.code(),
        spec.protocol_type.code(),
        spec.operation.code(),
    );
    match frame {
        Some(bytes) => Ok(bytes),
        None => Err(BuildError::InvalidFieldSize),
    }
}

} // verus!
