//! Recovering hardware addresses from the link-layer section of a frame.

use crate::address::{canonical_text, format_hardware_address, HardwareAddress};
use vstd::prelude::*;

verus! {

/// Length of an Ethernet II header: two hardware addresses and the ether type.
pub const ETHERNET_HEADER_LEN: usize = 14;

/// The addressing fields of a frame's link-layer section.
///
/// A field is `None` when the link layer does not carry it; Ethernet II
/// carries all three.
#[derive(Debug, Clone, Copy, PartialEq, Eq)]
pub struct LinkLayerView {
    /// Hardware address of the sending station.
    pub source: Option<HardwareAddress>,
    /// Hardware address of the receiving station.
    pub destination: Option<HardwareAddress>,
    /// Protocol number of the payload.
    pub ether_type: Option<u16>,
}

/// What a link-layer view holds, with each address as a sequence of octets.
pub struct LinkFields {
    pub source: Option<Seq<u8>>,
    pub destination: Option<Seq<u8>>,
    pub ether_type: Option<u16>,
}

impl View for LinkLayerView {
    type V = LinkFields;

    open spec fn view(&self) -> LinkFields {
        LinkFields {
            source: match self.source {
                Some(octets) => Some(octets@),
                None => None,
            },
            destination: match self.destination {
                Some(octets) => Some(octets@),
                None => None,
            },
            ether_type: self.ether_type,
        }
    }
}

/// Why no address pair could be taken from a link-layer view.
#[derive(Debug, Clone, Copy, PartialEq, Eq)]
pub enum ExtractionError {
    /// The source or the destination address is absent from the view.
    MissingField,
}

/// The canonical source and destination text of a view that carries both
/// addresses.
pub open spec fn address_pair(fields: LinkFields) -> Option<(Seq<char>, Seq<char>)> {
    match (fields.source, fields.destination) {
        (Some(source), Some(destination)) => Some(
            (canonical_text(source), canonical_text(destination)),
        ),
        _ => None,
    }
}

/// Returns the source and destination hardware addresses of `view`, in that
/// order and in canonical form.
///
/// Fails with `MissingField` exactly when either address is absent.
pub fn extract_addresses(view: &LinkLayerView) -> (r: Result<(String, String), ExtractionError>)
    ensures
        match address_pair(view@) {
            Some(pair) => r is Ok && r->Ok_0.0@ == pair.0 && r->Ok_0.1@ == pair.1,
            None => r == Err::<(String, String), ExtractionError>(ExtractionError::MissingField),
        },
{
    match (&view.source, &view.destination) {
        (Some(source), Some(destination)) => {
            let from = format_hardware_address(source.as_slice());
            let to = format_hardware_address(destination.as_slice());
            match (from, to) {
                (Ok(from), Ok(to)) => Ok((from, to)),
                _ => Err(ExtractionError::MissingField),
            }
        },
        _ => Err(ExtractionError::MissingField),
    }
}

} // verus!
