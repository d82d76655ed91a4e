//! The human-readable report of what the capture loop has seen.
//!
//! A decoded frame is reported as a block of lines: an opening delimiter,
//! the extracted hardware addresses or a notice that there are none, one
//! line for each layer from the link upwards, and a closing delimiter.
//! Failures are reported as one line each.

use crate::address::{
    canonical_text, format_hardware_address, octet_text, push_octet, HardwareAddress,
};
use crate::capture::{FrameReport, SessionError};
use crate::frame::{optional_text, texts, DecodeError, DecodedFrameView};
use crate::link::{LinkFields, LinkLayerView};
use vstd::prelude::*;
use vstd::string::StringExecFns;

verus! {

/// The texts joined with `sep` between neighbours.
pub open spec fn joined(items: Seq<Seq<char>>, sep: Seq<char>) -> Seq<char>
    decreases items.len(),
{
    if items.len() == 0 {
        Seq::empty()
    } else if items.len() == 1 {
        items[0]
    } else {
        joined(items.drop_last(), sep) + sep + items.last()
    }
}

/// An optional text as `Some(..)` around it, or `None`.
pub open spec fn optional_summary(section: Option<Seq<char>>) -> Seq<char> {
    match section {
        Some(text) => "Some("@ + text + ")"@,
        None => "None"@,
    }
}

/// A list of texts in square brackets, separated by a comma and a space.
pub open spec fn list_summary(items: Seq<Seq<char>>) -> Seq<char> {
    "["@ + joined(items, ", "@) + "]"@
}

/// An optional hardware address in canonical form, or `absent`.
pub open spec fn address_summary(address: Option<Seq<u8>>) -> Seq<char> {
    match address {
        Some(octets) => canonical_text(octets),
        None => "absent"@,
    }
}

/// An optional ether type as four hexadecimal digits, or `absent`.
pub open spec fn ether_type_summary(ether_type: Option<u16>) -> Seq<char> {
    match ether_type {
        Some(value) => octet_text((value / 256) as u8) + octet_text((value % 256) as u8),
        None => "absent"@,
    }
}

/// The summary of the link layer: source, destination and ether type.
pub open spec fn link_summary_text(link: LinkFields) -> Seq<char> {
    "source "@ + address_summary(link.source) + ", destination "@ + address_summary(
        link.destination,
    ) + ", ether type "@ + ether_type_summary(link.ether_type)
}

/// The lines that announce the extracted addresses, or their absence.
pub open spec fn address_lines(addresses: Option<(Seq<char>, Seq<char>)>) -> Seq<Seq<char>> {
    match addresses {
        Some(pair) => seq!["Source MAC: "@ + pair.0, "Destination MAC: "@ + pair.1],
        None => seq!["Failed to extract MAC addresses."@],
    }
}

/// The lines that summarise the layers of a frame, from the link upwards.
pub open spec fn layer_lines(frame: DecodedFrameView) -> Seq<Seq<char>> {
    seq![
        "Link: "@ + link_summary_text(frame.link),
        "LinkExts: "@ + list_summary(frame.link_extensions),
        "Network: "@ + optional_summary(frame.network),
        "Transport: "@ + optional_summary(frame.transport),
    ]
}

/// The whole report of one frame, line by line.
pub open spec fn frame_report_text(
    addresses: Option<(Seq<char>, Seq<char>)>,
    frame: DecodedFrameView,
) -> Seq<Seq<char>> {
    seq!["== PACKET ======================="@] + address_lines(addresses) + layer_lines(frame)
        + seq!["================================="@]
}

/// The address pair of a report, if extraction succeeded.
pub open spec fn extracted(report: FrameReport) -> Option<(Seq<char>, Seq<char>)> {
    match report.addresses {
        Ok(pair) => Some((pair.0@, pair.1@)),
        Err(_) => None,
    }
}

/// Renders a list of texts in square brackets.
fn list_summary_of(items: &Vec<String>) -> (r: String)
    ensures
        r@ == list_summary(texts(items@)),
{
    let mut out = String::from_str("[");
    let mut i: usize = 0;
    while i < items.len()
        invariant
            i <= items@.len(),
            out@ == "["@ + joined(texts(items@).take(i as int), ", "@),
        decreases items@.len() - i,
    {
        let ghost before = out@;
        let ghost done = texts(items@).take(i as int);
        if i > 0 {
            out.append(", ");
        }
        out.append(items[i].as_str());
        proof {
            let more = texts(items@).take(i + 1);
            assert(more.drop_last() =~= done);
            assert(more.last() == items@[i as int]@);
            if i > 0 {
                assert(out@ =~= "["@ + (joined(done, ", "@) + ", "@ + more.last()));
            } else {
                assert(done.len() == 0);
                assert(out@ =~= "["@ + more[0]);
            }
        }
        i += 1;
    }
    assert(texts(items@).take(i as int) =~= texts(items@));
    out.append("]");
    out
}

/// Renders an optional section.
fn optional_summary_of(section: &Option<String>) -> (r: String)
    ensures
        r@ == optional_summary(optional_text(*section)),
{
    match section {
        Some(text) => {
            let mut out = String::from_str("Some(");
            out.append(text.as_str());
            out.append(")");
            out
        },
        None => String::from_str("None"),
    }
}

/// Appends an optional hardware address to `out`.
fn push_address(out: &mut String, address: &Option<HardwareAddress>)
    ensures
        final(out)@ == old(out)@ + address_summary(
            match *address {
                Some(octets) => Some(octets@),
                None => None,
            },
        ),
{
    match address {
        Some(octets) => {
            match format_hardware_address(octets.as_slice()) {
                Ok(text) => out.append(text.as_str()),
                Err(_) => {},
            }
        },
        None => out.append("absent"),
    }
}

/// Summarises the link layer of a frame: its source and destination in
/// canonical form and its ether type as four hexadecimal digits, each
/// replaced by `absent` where the link layer does not carry it.
pub fn link_summary(link: &LinkLayerView) -> (r: String)
    ensures
        r@ == link_summary_text(link@),
{
    let mut out = String::from_str("source ");
    push_address(&mut out, &link.source);
    out.append(", destination ");
    push_address(&mut out, &link.destination);
    out.append(", ether type ");
    let ghost head = out@;
    match link.ether_type {
        Some(value) => {
            push_octet(&mut out, (value / 256) as u8);
            push_octet(&mut out, (value % 256) as u8);
            assert(out@ =~= head + ether_type_summary(link.ether_type));
        },
        None => out.append("absent"),
    }
    out
}

/// A label followed by a text.
fn labelled(label: &str, text: &str) -> (r: String)
    ensures
        r@ == label@ + text@,
{
    let mut out = String::from_str(label);
    out.append(text);
    out
}

/// Renders the report of one frame as lines, in the order in which they are
/// to be shown: the opening delimiter; the source and the destination
/// address, or one notice that none were extracted; the link, link
/// extension, network and transport summaries; the closing delimiter.
pub fn frame_report_lines(report: &FrameReport) -> (lines: Vec<String>)
    ensures
        texts(lines@) == frame_report_text(extracted(*report), report.frame@),
{
    let mut lines: Vec<String> = Vec::new();
    lines.push(String::from_str("== PACKET ======================="));
    match &report.addresses {
        Ok(pair) => {
            lines.push(labelled("Source MAC: ", pair.0.as_str()));
            lines.push(labelled("Destination MAC: ", pair.1.as_str()));
        },
        Err(_) => {
            lines.push(String::from_str("Failed to extract MAC addresses."));
        },
    }
    assert(texts(lines@) =~= seq!["== PACKET ======================="@] + address_lines(
        extracted(*report),
    ));
    let link = report.frame.link();
    lines.push(labelled("Link: ", link_summary(&link).as_str()));
    lines.push(
        labelled("LinkExts: ", list_summary_of(report.frame.link_extensions()).as_str()),
    );
    lines.push(labelled("Network: ", optional_summary_of(report.frame.network()).as_str()));
    lines.push(labelled("Transport: ", optional_summary_of(report.frame.transport()).as_str()));
    lines.push(String::from_str("================================="));
    assert(texts(lines@) =~= frame_report_text(extracted(*report), report.frame@));
    lines
}

/// The line that reports a frame that could not be decoded.
pub fn decode_failure_line(error: &DecodeError) -> (r: String)
    ensures
        error matches DecodeError::Malformed(reason) && r@ == "Error parsing packet: "@ + reason@,
{
    match error {
        DecodeError::Malformed(reason) => labelled("Error parsing packet: ", reason.as_str()),
    }
}

/// The line that reports the failure of the capture session.
pub fn session_failure_line(error: &SessionError) -> (r: String)
    ensures
        r@ == "Error receiving packet: "@ + error.description@,
{
    labelled("Error receiving packet: ", error.description.as_str())
}

} // verus!
