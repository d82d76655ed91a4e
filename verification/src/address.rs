//! Canonical text form of hardware addresses.
//!
//! A hardware address is six octets. Its canonical text is six two-digit
//! uppercase hexadecimal pairs joined by colons, as in `01:02:03:04:05:06`.

use crate::text::{
    all_digits, digit_value, lemma_split_preserves_ascii, lemma_split_scan_append,
    lemma_split_scan_plain, number, octet_from_digits, parse_octet_digits,
    piece_views, split, split_ascii,
};
use vstd::prelude::*;

verus! {

/// Number of octets in a hardware address.
pub const HARDWARE_ADDRESS_LEN: usize = 6;

/// A hardware address: the six octets that identify a station on a link.
pub type HardwareAddress = [u8; 6];

/// Why a byte sequence could not be rendered as a hardware address.
#[derive(Debug, Clone, Copy, PartialEq, Eq)]
pub enum FormatError {
    /// The input did not hold exactly six octets.
    WrongLength,
}

/// The sixteen uppercase hexadecimal digits, indexed by value.
pub open spec fn hex_digits() -> Seq<char> {
    seq!['0', '1', '2', '3', '4', '5', '6', '7', '8', '9', 'A', 'B', 'C', 'D', 'E', 'F']
}

/// The two-digit uppercase hexadecimal rendering of one octet.
pub open spec fn octet_text(b: u8) -> Seq<char> {
    seq![hex_digits()[b as int / 16], hex_digits()[b as int % 16]]
}

/// The octets rendered as two-digit pairs with a colon between neighbours.
pub open spec fn canonical_text(bytes: Seq<u8>) -> Seq<char>
    decreases bytes.len(),
{
    if bytes.len() == 0 {
        Seq::empty()
    } else if bytes.len() == 1 {
        octet_text(bytes[0])
    } else {
        canonical_text(bytes.drop_last()) + seq![':'] + octet_text(bytes.last())
    }
}

/// The one-character text of a hexadecimal digit.
fn hex_digit_text(n: u8) -> (s: &'static str)
    requires
        n < 16,
    ensures
        s@ == seq![hex_digits()[n as int]],
{
    proof {
        reveal_strlit("0");
        reveal_strlit("1");
        reveal_strlit("2");
        reveal_strlit("3");
        reveal_strlit("4");
        reveal_strlit("5");
        reveal_strlit("6");
        reveal_strlit("7");
        reveal_strlit("8");
        reveal_strlit("9");
        reveal_strlit("A");
        reveal_strlit("B");
        reveal_strlit("C");
        reveal_strlit("D");
        reveal_strlit("E");
        reveal_strlit("F");
    }
    let s = match n {
        0 => "0",
        1 => "1",
        2 => "2",
        3 => "3",
        4 => "4",
        5 => "5",
        6 => "6",
        7 => "7",
        8 => "8",
        9 => "9",
        10 => "A",
        11 => "B",
        12 => "C",
        13 => "D",
        14 => "E",
        _ => "F",
    };
    assert(s@ =~= seq![hex_digits()[n as int]]);
    s
}

/// Appends the two hexadecimal digits of `b` to `out`.
pub(crate) fn push_octet(out: &mut String, b: u8)
    ensures
        final(out)@ == old(out)@ + octet_text(b),
{
    out.append(hex_digit_text(b / 16));
    out.append(hex_digit_text(b % 16));
    assert(final(out)@ =~= old(out)@ + octet_text(b));
}

/// Renders a hardware address in canonical form.
///
/// Succeeds exactly when `bytes` holds six octets; every octet value has a
/// two-digit rendering, so no six-octet input is rejected.
pub fn format_hardware_address(bytes: &[u8]) -> (r: Result<String, FormatError>)
    ensures
        bytes@.len() == HARDWARE_ADDRESS_LEN ==> r is Ok && r->Ok_0@ == canonical_text(bytes@),
        bytes@.len() != HARDWARE_ADDRESS_LEN ==> r == Err::<String, FormatError>(
            FormatError::WrongLength,
        ),
        r is Ok ==> r->Ok_0@.len() == 17,
{
    if bytes.len() != HARDWARE_ADDRESS_LEN {
        return Err(FormatError::WrongLength);
    }
    let mut out = String::new();
    let mut i: usize = 0;
    while i < bytes.len()
        invariant
            i <= bytes@.len(),
            out@ == canonical_text(bytes@.take(i as int)),
            out@.len() == (if i == 0 { 0 } else { 3 * i - 1 }),
        decreases bytes@.len() - i,
    {
        if i > 0 {
            out.append(":");
            proof {
                reveal_strlit(":");
            }
        }
        push_octet(&mut out, bytes[i]);
        proof {
            let prefix = bytes@.take(i + 1);
            assert(prefix.drop_last() =~= bytes@.take(i as int));
            assert(prefix.last() == bytes@[i as int]);
            if i > 0 {
                assert(":"@ =~= seq![':']);
            }
        }
        i += 1;
    }
    assert(bytes@.take(i as int) =~= bytes@);
    Ok(out)
}

/// The octet that one field of text denotes: a run of digits in the given
/// radix, after an optional plus sign where `signed` allows one.
pub open spec fn octet_field(piece: Seq<char>, radix: nat, signed: bool) -> Option<u8> {
    if signed && piece.len() > 0 && piece[0] == '+' {
        octet_from_digits(piece.skip(1), radix)
    } else {
        octet_from_digits(piece, radix)
    }
}

/// The six octets that `text` lists, when it is exactly six fields separated
/// by `sep` and each field denotes an octet.
pub open spec fn six_octets(text: Seq<char>, sep: Seq<char>, radix: nat, signed: bool) -> Option<
    Seq<u8>,
> {
    let pieces = split(text, sep);
    if pieces.len() == HARDWARE_ADDRESS_LEN && forall|i: int|
        0 <= i < pieces.len() ==> (#[trigger] octet_field(pieces[i], radix, signed)) is Some {
        Some(Seq::new(pieces.len(), |i: int| octet_field(pieces[i], radix, signed)->Some_0))
    } else {
        None
    }
}

/// The octets of a decimal list such as `1, 2, 3, 4, 5, 6`: six fields
/// separated by a comma and one space, each a decimal number up to 255,
/// optionally preceded by a plus sign.
pub open spec fn listed_octets(text: Seq<char>) -> Option<Seq<u8>> {
    six_octets(text, seq![',', ' '], 10, true)
}

/// The octets of colon-separated hexadecimal text: six fields, each a
/// hexadecimal number up to `FF` in either case.
pub open spec fn canonical_octets(text: Seq<char>) -> Option<Seq<u8>> {
    six_octets(text, seq![':'], 16, false)
}

/// The two-digit rendering of an octet reads back as that octet.
pub proof fn lemma_octet_text_reads_back(b: u8)
    ensures
        octet_field(octet_text(b), 16, false) == Some(b),
        !octet_text(b).contains(':'),
{
    let text = octet_text(b);
    let hi = b as int / 16;
    let lo = b as int % 16;
    assert forall|n: int| 0 <= n < 16 implies digit_value(#[trigger] hex_digits()[n], 16) == Some(
        n as nat,
    ) && hex_digits()[n] != ':' by {}
    assert(text[0] == hex_digits()[hi]);
    assert(text[1] == hex_digits()[lo]);
    assert(all_digits(text, 16));
    assert(text.drop_last() =~= seq![hex_digits()[hi]]);
    assert(text.drop_last().drop_last() =~= Seq::<char>::empty());
    assert(number(text.drop_last().drop_last(), 16) == 0);
    assert(number(text.drop_last(), 16) == hi);
    assert(number(text, 16) == hi * 16 + lo);
}

/// Split on colons, canonical text falls into the two-digit renderings of
/// its octets, in order.
pub proof fn lemma_canonical_text_pieces(bytes: Seq<u8>)
    requires
        bytes.len() >= 1,
    ensures
        split(canonical_text(bytes), seq![':']) == Seq::new(
            bytes.len(),
            |i: int| octet_text(bytes[i]),
        ),
    decreases bytes.len(),
{
    let expected = Seq::new(bytes.len(), |i: int| octet_text(bytes[i]));
    lemma_octet_text_reads_back(bytes.last());
    if bytes.len() == 1 {
        lemma_split_scan_plain(Seq::empty(), octet_text(bytes[0]), ':');
        assert(Seq::<char>::empty() + octet_text(bytes[0]) =~= octet_text(bytes[0]));
        assert(expected =~= seq![octet_text(bytes[0])]);
    } else {
        let shorter = bytes.drop_last();
        lemma_canonical_text_pieces(shorter);
        lemma_split_scan_append(
            Seq::empty(),
            canonical_text(shorter),
            ':',
            octet_text(bytes.last()),
        );
        assert(expected =~= Seq::new(shorter.len(), |i: int| octet_text(shorter[i])).push(
            octet_text(bytes.last()),
        ));
    }
}

/// Round trip: the canonical text of any six octets, split on colons and
/// read back as hexadecimal, gives exactly those octets.
pub proof fn lemma_canonical_round_trip(bytes: Seq<u8>)
    requires
        bytes.len() == HARDWARE_ADDRESS_LEN,
    ensures
        canonical_octets(canonical_text(bytes)) == Some(bytes),
{
    lemma_canonical_text_pieces(bytes);
    let pieces = split(canonical_text(bytes), seq![':']);
    assert forall|i: int| 0 <= i < pieces.len() implies (#[trigger] octet_field(
        pieces[i],
        16,
        false,
    )) == Some(bytes[i]) by {
        lemma_octet_text_reads_back(bytes[i]);
    }
    assert(canonical_octets(canonical_text(bytes))->Some_0 =~= bytes);
}

/// A field that denotes an octet holds only ASCII characters.
proof fn lemma_octet_field_is_ascii(piece: Seq<char>, radix: nat, signed: bool)
    requires
        octet_field(piece, radix, signed) is Some,
    ensures
        vstd::utf8::is_ascii_chars(piece),
{
    let digits = if signed && piece.len() > 0 && piece[0] == '+' {
        piece.skip(1)
    } else {
        piece
    };
    assert(all_digits(digits, radix));
    assert forall|k: int| 0 <= k < piece.len() implies '\0' <= #[trigger] piece[k]
        <= '\u{7f}' by {
        if digits.len() == piece.len() {
            assert(digit_value(digits[k], radix) is Some);
        } else if k > 0 {
            assert(piece[k] == digits[k - 1]);
            assert(digit_value(digits[k - 1], radix) is Some);
        }
    }
}

/// Reads six octets from `text`, field by field.
fn parse_six_octets(text: &str, sep: &str, radix: u8, signed: bool) -> (r: Option<
    HardwareAddress,
>)
    requires
        sep.is_ascii(),
        sep@.len() > 0,
        1 <= radix <= 36,
    ensures
        match six_octets(text@, sep@, radix as nat, signed) {
            Some(octets) => r is Some && r->Some_0@ == octets,
            None => r is None,
        },
{
    if !text.is_ascii() {
        proof {
            let pieces = split(text@, sep@);
            if six_octets(text@, sep@, radix as nat, signed) is Some {
                assert forall|i: int| 0 <= i < pieces.len() implies vstd::utf8::is_ascii_chars(
                    #[trigger] pieces[i],
                ) by {
                    assert(octet_field(pieces[i], radix as nat, signed) is Some);
                    lemma_octet_field_is_ascii(pieces[i], radix as nat, signed);
                }
                lemma_split_preserves_ascii(Seq::empty(), text@, sep@);
            }
        }
        return None;
    }
    let pieces = split_ascii(text, sep);
    if pieces.len() != HARDWARE_ADDRESS_LEN {
        return None;
    }
    let ghost fields = split(text@, sep@);
    let mut octets: HardwareAddress = [0u8; 6];
    let mut i: usize = 0;
    while i < HARDWARE_ADDRESS_LEN
        invariant
            i <= HARDWARE_ADDRESS_LEN,
            pieces@.len() == HARDWARE_ADDRESS_LEN,
            fields == piece_views(pieces@),
            fields == split(text@, sep@),
            1 <= radix <= 36,
            forall|k: int| 0 <= k < pieces@.len() ==> (#[trigger] pieces@[k]).is_ascii(),
            forall|k: int|
                0 <= k < i ==> octet_field(#[trigger] fields[k], radix as nat, signed) == Some(
                    octets@[k],
                ),
        decreases HARDWARE_ADDRESS_LEN - i,
    {
        let piece = pieces[i];
        assert(piece@ == fields[i as int]);
        assert(piece.is_ascii());
        let from: usize = if signed && piece.unicode_len() > 0 && piece.get_ascii(0) == 43 {
            1
        } else {
            0
        };
        proof {
            assert(piece@.skip(0) =~= piece@);
            if piece@.len() > 0 {
                assert('\0' <= piece@[0] <= '\u{7f}');
                assert((piece@[0] as u8 == 43) == (piece@[0] == '+'));
            }
        }
        match parse_octet_digits(piece, from, radix) {
            Some(v) => {
                assert(octet_field(fields[i as int], radix as nat, signed) == Some(v));
                octets[i] = v;
            },
            None => {
                assert(octet_field(fields[i as int], radix as nat, signed) is None);
                return None;
            },
        }
        i += 1;
    }
    proof {
        let expected = six_octets(text@, sep@, radix as nat, signed);
        assert(expected is Some);
        assert(expected->Some_0 =~= octets@);
    }
    Some(octets)
}

/// Reads a hardware address from colon-separated hexadecimal text.
///
/// Succeeds exactly when the text is six fields separated by colons, each a
/// hexadecimal number of one or more digits, in either case, no greater than
/// `FF`.
pub fn parse_hardware_address(text: &str) -> (r: Option<HardwareAddress>)
    ensures
        match canonical_octets(text@) {
            Some(octets) => r is Some && r->Some_0@ == octets,
            None => r is None,
        },
{
    proof {
        reveal_strlit(":");
        assert(":"@ =~= seq![':']);
    }
    parse_six_octets(text, ":", 16, false)
}

/// Renders a decimal list of six octets, such as `1, 2, 3, 4, 5, 6`, in
/// canonical form (`01:02:03:04:05:06`).
///
/// The fields are separated by a comma followed by one space. Each is a
/// decimal number up to 255 with any number of leading zeros and an optional
/// leading plus sign. Any other text yields `None`.
pub fn format_mac(numbers: &str) -> (r: Option<String>)
    ensures
        match listed_octets(numbers@) {
            Some(octets) => r is Some && r->Some_0@ == canonical_text(octets),
            None => r is None,
        },
{
    proof {
        reveal_strlit(", ");
        assert(", "@ =~= seq![',', ' ']);
    }
    match parse_six_octets(numbers, ", ", 10, true) {
        Some(octets) => {
            match format_hardware_address(octets.as_slice()) {
                Ok(text) => Some(text),
                Err(_) => None,
            }
        },
        None => None,
    }
}

} // verus!
