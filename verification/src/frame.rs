//! Layered decoding of captured Ethernet frames.
//!
//! The link layer is read into structured fields. The sections above it
//! (link extensions such as VLAN tags, the network layer, the transport
//! layer) are kept as the decoder's own summaries, one text per section.

use crate::link::{LinkFields, LinkLayerView, ETHERNET_HEADER_LEN};
use vstd::prelude::*;
use vstd::string::StringExecFns;

verus! {

/// Why a captured buffer could not be decoded.
#[derive(Debug, Clone, PartialEq, Eq)]
pub enum DecodeError {
    /// A layer that claims to be present is inconsistent with the buffer;
    /// the text says which and how.
    Malformed(String),
}

/// Summaries of the sections of a frame above its link layer.
#[derive(Debug, Clone, PartialEq, Eq)]
pub struct UpperLayers {
    /// One summary per link extension, outermost first.
    pub link_extensions: Vec<String>,
    /// Summary of the network layer, if one was recognised.
    pub network: Option<String>,
    /// Summary of the transport layer, if one was recognised.
    pub transport: Option<String>,
}

/// The texts of a sequence of strings.
pub open spec fn texts(strings: Seq<String>) -> Seq<Seq<char>> {
    Seq::new(strings.len(), |i: int| strings[i]@)
}

/// The text of an optional string.
pub open spec fn optional_text(string: Option<String>) -> Option<Seq<char>> {
    match string {
        Some(s) => Some(s@),
        None => None,
    }
}

/// What `UpperLayers` holds, as texts.
pub struct UpperLayersView {
    pub link_extensions: Seq<Seq<char>>,
    pub network: Option<Seq<char>>,
    pub transport: Option<Seq<char>>,
}

impl View for UpperLayers {
    type V = UpperLayersView;

    open spec fn view(&self) -> UpperLayersView {
        UpperLayersView {
            link_extensions: texts(self.link_extensions@),
            network: optional_text(self.network),
            transport: optional_text(self.transport),
        }
    }
}

/// What a decoded frame holds.
pub struct DecodedFrameView {
    pub link: LinkFields,
    pub link_extensions: Seq<Seq<char>>,
    pub network: Option<Seq<char>>,
    pub transport: Option<Seq<char>>,
}

/// A frame is layered when no section stands on a missing one: a transport
/// section is present only above a network section.
pub open spec fn is_layered(frame: DecodedFrameView) -> bool {
    frame.transport is Some ==> frame.network is Some
}

/// The layered, read-only description of one captured frame.
#[derive(Debug, PartialEq, Eq)]
pub struct DecodedFrame {
    link: LinkLayerView,
    upper: UpperLayers,
}

impl View for DecodedFrame {
    type V = DecodedFrameView;

    closed spec fn view(&self) -> DecodedFrameView {
        DecodedFrameView {
            link: self.link@,
            link_extensions: self.upper@.link_extensions,
            network: self.upper@.network,
            transport: self.upper@.transport,
        }
    }
}

/// The reason reported for a transport section without a network section.
pub open spec fn layer_gap_reason() -> Seq<char> {
    "transport layer present without a network layer"@
}

/// The reason reported for a buffer too short for an Ethernet II header.
pub open spec fn short_frame_reason() -> Seq<char> {
    "frame shorter than an Ethernet II header"@
}

/// The frame made of the given sections, or the reason why they do not
/// form one.
pub open spec fn layered(link: LinkFields, upper: UpperLayersView) -> Result<
    DecodedFrameView,
    Seq<char>,
> {
    let frame = DecodedFrameView {
        link,
        link_extensions: upper.link_extensions,
        network: upper.network,
        transport: upper.transport,
    };
    if is_layered(frame) {
        Ok(frame)
    } else {
        Err(layer_gap_reason())
    }
}

/// What a decoding result says: the frame's contents, or the reason of the
/// failure.
pub open spec fn decoding_view(r: Result<DecodedFrame, DecodeError>) -> Result<
    DecodedFrameView,
    Seq<char>,
> {
    match r {
        Ok(frame) => Ok(frame@),
        Err(DecodeError::Malformed(reason)) => Err(reason@),
    }
}

impl DecodedFrame {
    #[verifier::type_invariant]
    closed spec fn layering(&self) -> bool {
        is_layered(self@)
    }

    /// Puts a frame together from its sections.
    ///
    /// Fails exactly when a transport section is given without a network
    /// section.
    pub fn new(link: LinkLayerView, upper: UpperLayers) -> (r: Result<DecodedFrame, DecodeError>)
        ensures
            decoding_view(r) == layered(link@, upper@),
    {
        if upper.transport.is_some() && upper.network.is_none() {
            return Err(
                DecodeError::Malformed(
                    String::from_str("transport layer present without a network layer"),
                ),
            );
        }
        Ok(DecodedFrame { link, upper })
    }

    /// The addressing fields of the link layer.
    pub fn link(&self) -> (r: LinkLayerView)
        ensures
            r@ == self@.link,
    {
        self.link
    }

    /// Summaries of the link extensions, outermost first.
    pub fn link_extensions(&self) -> (r: &Vec<String>)
        ensures
            texts(r@) == self@.link_extensions,
    {
        &self.upper.link_extensions
    }

    /// Summary of the network layer, if the frame has one.
    pub fn network(&self) -> (r: &Option<String>)
        ensures
            optional_text(*r) == self@.network,
    {
        &self.upper.network
    }

    /// Summary of the transport layer, if the frame has one; it never has
    /// one without a network layer.
    pub fn transport(&self) -> (r: &Option<String>)
        ensures
            optional_text(*r) == self@.transport,
            r is Some ==> self@.network is Some,
    {
        proof {
            use_type_invariant(self);
        }
        &self.upper.transport
    }
}

/// The ether type in the Ethernet II header at the start of `raw`: its
/// thirteenth and fourteenth octets, in network byte order.
pub open spec fn header_ether_type(raw: Seq<u8>) -> u16
    recommends
        raw.len() >= ETHERNET_HEADER_LEN,
{
    (raw[12] * 256 + raw[13]) as u16
}

/// The link-layer fields of a buffer that starts with an Ethernet II
/// header: destination in the first six octets, source in the next six,
/// then the ether type in network byte order.
pub open spec fn ethernet_link(raw: Seq<u8>) -> Option<LinkFields> {
    if raw.len() >= ETHERNET_HEADER_LEN {
        Some(
            LinkFields {
                source: Some(raw.subrange(6, 12)),
                destination: Some(raw.subrange(0, 6)),
                ether_type: Some(header_ether_type(raw)),
            },
        )
    } else {
        None
    }
}

/// Whether slicing looks for a further section under this ether type: the
/// three VLAN tags, MACsec, ARP, IPv4 and IPv6.
pub open spec fn announces_section(ether_type: u16) -> bool {
    ether_type == 0x8100 || ether_type == 0x88A8 || ether_type == 0x9100 || ether_type == 0x88E5
        || ether_type == 0x0806 || ether_type == 0x0800 || ether_type == 0x86DD
}

/// Whether `raw` is an Ethernet II header followed by a payload of a kind
/// that slicing does not look into.
pub open spec fn has_opaque_payload(raw: Seq<u8>) -> bool {
    raw.len() >= ETHERNET_HEADER_LEN && !announces_section(header_ether_type(raw))
}

/// Whether `raw` is an Ethernet II header announcing IPv4, followed by
/// fewer octets than an IPv4 header has, or than the total length that the
/// IPv4 header declares.
pub open spec fn ipv4_cut_short(raw: Seq<u8>) -> bool {
    raw.len() >= ETHERNET_HEADER_LEN && header_ether_type(raw) == 0x0800 && (raw.len()
        < ETHERNET_HEADER_LEN + 20 || raw[16] * 256 + raw[17] > raw.len() - ETHERNET_HEADER_LEN)
}

/// Whether `raw` is an Ethernet II header announcing IPv6, followed by
/// fewer octets than the forty of an IPv6 header and the payload length that
/// the header declares.
pub open spec fn ipv6_cut_short(raw: Seq<u8>) -> bool {
    raw.len() >= ETHERNET_HEADER_LEN && header_ether_type(raw) == 0x86DD && (raw.len()
        < ETHERNET_HEADER_LEN + 40 || raw.len() - ETHERNET_HEADER_LEN < 40 + raw[18] * 256
        + raw[19])
}

/// Whether the network layer that the Ethernet II header of `raw`
/// announces claims more octets than the buffer holds.
pub open spec fn network_layer_cut_short(raw: Seq<u8>) -> bool {
    ipv4_cut_short(raw) || ipv6_cut_short(raw)
}

/// No section above the link layer.
pub open spec fn no_upper_layers() -> UpperLayersView {
    UpperLayersView { link_extensions: Seq::empty(), network: None, transport: None }
}

/// The summaries that `etherparse` gives of the sections above the link
/// layer of an Ethernet II frame, or its description of the failure.
pub uninterp spec fn ethernet_upper_layers(raw: Seq<u8>) -> Result<UpperLayersView, Seq<char>>;

/// What a slicing result says, as texts.
pub open spec fn slicing_view(r: Result<UpperLayers, String>) -> Result<
    UpperLayersView,
    Seq<char>,
> {
    match r {
        Ok(upper) => Ok(upper@),
        Err(reason) => Err(reason@),
    }
}

/// Reads the header fields of an Ethernet II frame with `etherparse`:
/// `Ethernet2Slice::from_slice_without_fcs` and its `source`, `destination`
/// and `ether_type` accessors.
///
/// The slice is accepted exactly when it holds at least the fourteen octets
/// of the header, and the accessors read the fixed positions that
/// `ethernet_link` names.
#[verifier::external_body]
fn read_ethernet_header(raw: &[u8]) -> (r: Option<LinkLayerView>)
    ensures
        match ethernet_link(raw@) {
            Some(fields) => r is Some && r->Some_0@ == fields,
            None => r is None,
        },
{
    let header = etherparse::Ethernet2Slice::from_slice_without_fcs(raw).ok()?;
    Some(
        LinkLayerView {
            source: Some(header.source()),
            destination: Some(header.destination()),
            ether_type: Some(header.ether_type().0),
        },
    )
}

/// Slices an Ethernet II frame with `etherparse`'s
/// `SlicedPacket::from_ethernet` and renders each section above the link
/// layer, and a failure, in its debug form.
///
/// The outcome depends on the bytes alone. Four facts are taken from the
/// slicing code. It starts with the Ethernet II header and fails when the
/// buffer is too short to hold it. Under an ether type other than those of
/// `announces_section` it stops after the header and succeeds with no
/// section above the link layer. Under the IPv4 ether type it reads an
/// IPv4 header next and fails when fewer than twenty octets follow, or
/// fewer than the total length declared in the third and fourth of them.
/// Under the IPv6 ether type it reads an IPv6 header next and fails when
/// fewer octets follow than forty and the payload length declared in the
/// fifth and sixth of them.
#[verifier::external_body]
fn slice_upper_layers(raw: &[u8]) -> (r: Result<UpperLayers, String>)
    ensures
        slicing_view(r) == ethernet_upper_layers(raw@),
        raw@.len() < ETHERNET_HEADER_LEN ==> r is Err,
        has_opaque_payload(raw@) ==> r is Ok && r->Ok_0@ == no_upper_layers(),
        network_layer_cut_short(raw@) ==> r is Err,
{
    match etherparse::SlicedPacket::from_ethernet(raw) {
        Ok(packet) => Ok(
            UpperLayers {
                link_extensions: packet.link_exts.iter().map(|x| format!("{:?}", x)).collect(),
                network: packet.net.as_ref().map(|n| format!("{:?}", n)),
                transport: packet.transport.as_ref().map(|t| format!("{:?}", t)),
            },
        ),
        Err(e) => Err(format!("{:?}", e)),
    }
}

/// The outcome of decoding when the header fields and the slicing of the
/// upper layers are given.
pub open spec fn assembled(
    link: Option<LinkFields>,
    sliced: Result<UpperLayersView, Seq<char>>,
) -> Result<DecodedFrameView, Seq<char>> {
    match sliced {
        Err(reason) => Err(reason),
        Ok(upper) => match link {
            Some(fields) => layered(fields, upper),
            None => Err(short_frame_reason()),
        },
    }
}

/// The outcome of decoding a captured buffer.
pub open spec fn decoded(raw: Seq<u8>) -> Result<DecodedFrameView, Seq<char>> {
    assembled(ethernet_link(raw), ethernet_upper_layers(raw))
}

/// The frame of a buffer with an opaque payload: the link fields of its
/// header and nothing above them.
pub open spec fn bare_frame(raw: Seq<u8>) -> DecodedFrameView
    recommends
        raw.len() >= ETHERNET_HEADER_LEN,
{
    DecodedFrameView {
        link: ethernet_link(raw)->Some_0,
        link_extensions: Seq::empty(),
        network: None,
        transport: None,
    }
}

/// Puts a decoding result together from the header fields, if the buffer
/// held a header, and the outcome of slicing the upper layers.
///
/// A slicing failure is reported as it is. Otherwise the frame is built
/// from the sections, unless the header is missing or the sections are not
/// layered.
pub fn assemble_frame(link: Option<LinkLayerView>, sliced: Result<UpperLayers, String>) -> (r:
    Result<DecodedFrame, DecodeError>)
    ensures
        decoding_view(r) == assembled(
            match link {
                Some(view) => Some(view@),
                None => None,
            },
            slicing_view(sliced),
        ),
{
    match sliced {
        Err(reason) => Err(DecodeError::Malformed(reason)),
        Ok(upper) => match link {
            Some(view) => DecodedFrame::new(view, upper),
            None => Err(
                DecodeError::Malformed(String::from_str("frame shorter than an Ethernet II header")),
            ),
        },
    }
}

/// Decodes a captured buffer as an Ethernet II frame, layer by layer.
///
/// A buffer shorter than the Ethernet II header is malformed. Otherwise the
/// link fields are those of the header, and the upper sections are those
/// that slicing finds; a layer that slicing does not recognise is simply
/// absent, while one that is inconsistent with the buffer makes the whole
/// frame malformed. So a payload of a kind that slicing does not look into
/// gives a frame with no upper section, and an IPv4 or IPv6 payload that
/// ends before the length it declares gives no frame.
pub fn decode(raw: &[u8]) -> (r: Result<DecodedFrame, DecodeError>)
    ensures
        decoding_view(r) == decoded(raw@),
        r is Ok ==> Some(r->Ok_0@.link) == ethernet_link(raw@) && is_layered(r->Ok_0@),
        raw@.len() < ETHERNET_HEADER_LEN ==> decoded(raw@) is Err,
        network_layer_cut_short(raw@) ==> decoded(raw@) is Err,
        has_opaque_payload(raw@) ==> decoded(raw@) == Ok::<DecodedFrameView, Seq<char>>(
            bare_frame(raw@),
        ),
{
    let link = read_ethernet_header(raw);
    let sliced = slice_upper_layers(raw);
    assemble_frame(link, sliced)
}

} // verus!
