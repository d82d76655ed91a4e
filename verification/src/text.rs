//! Splitting text on a separator, scanning left to right.

use vstd::prelude::*;

verus! {

/// Whether `s` begins with `prefix`.
pub open spec fn starts_with(s: Seq<char>, prefix: Seq<char>) -> bool {
    prefix.len() <= s.len() && s.take(prefix.len() as int) == prefix
}

/// The pieces of `cur + rest` when `cur` is the part of the current piece
/// already scanned and `rest` is still to be read.
///
/// A separator found at the head of `rest` closes the current piece and is
/// skipped; any other character joins the current piece. Matches therefore
/// never overlap and the leftmost one wins.
pub open spec fn split_scan(cur: Seq<char>, rest: Seq<char>, sep: Seq<char>) -> Seq<Seq<char>>
    decreases rest.len(),
{
    if sep.len() > 0 && starts_with(rest, sep) {
        seq![cur] + split_scan(Seq::empty(), rest.skip(sep.len() as int), sep)
    } else if rest.len() == 0 {
        seq![cur]
    } else {
        split_scan(cur.push(rest[0]), rest.drop_first(), sep)
    }
}

/// The pieces of `s` between occurrences of the non-empty separator `sep`.
///
/// There is always at least one piece; a separator at either end, or two in
/// a row, yields an empty piece.
pub open spec fn split(s: Seq<char>, sep: Seq<char>) -> Seq<Seq<char>> {
    split_scan(Seq::empty(), s, sep)
}

/// The views of a vector of string slices.
pub open spec fn piece_views(pieces: Seq<&str>) -> Seq<Seq<char>> {
    Seq::new(pieces.len(), |i: int| pieces[i]@)
}

/// Whether the ASCII text `text`, of `n` characters, has the ASCII text
/// `sep`, of `m` characters, at position `at`.
fn matches_at(text: &str, n: usize, at: usize, sep: &str, m: usize) -> (r: bool)
    requires
        text.is_ascii(),
        sep.is_ascii(),
        n == text@.len(),
        m == sep@.len(),
        at <= n,
    ensures
        r == starts_with(text@.skip(at as int), sep@),
{
    if m > n - at {
        return false;
    }
    let mut j: usize = 0;
    while j < m
        invariant
            text.is_ascii(),
            sep.is_ascii(),
            n == text@.len(),
            m == sep@.len(),
            at + m <= n,
            j <= m,
            forall|k: int| 0 <= k < j ==> text@[at + k] == sep@[k],
        decreases m - j,
    {
        let a = text.get_ascii(at + j);
        let b = sep.get_ascii(j);
        if a != b {
            proof {
                let head = text@.skip(at as int).take(m as int);
                assert(head[j as int] == text@[at + j]);
                assert(text@[at + j] != sep@[j as int]);
            }
            return false;
        }
        j += 1;
    }
    assert(text@.skip(at as int).take(m as int) =~= sep@);
    true
}

/// Splits ASCII text on a non-empty ASCII separator.
pub(crate) fn split_ascii<'a>(text: &'a str, sep: &str) -> (pieces: Vec<&'a str>)
    requires
        text.is_ascii(),
        sep.is_ascii(),
        sep@.len() > 0,
    ensures
        piece_views(pieces@) == split(text@, sep@),
        forall|i: int| 0 <= i < pieces@.len() ==> (#[trigger] pieces@[i]).is_ascii(),
{
    let n = text.unicode_len();
    let m = sep.unicode_len();
    let mut pieces: Vec<&str> = Vec::new();
    let mut start: usize = 0;
    let mut i: usize = 0;
    proof {
        assert(text@.subrange(0, 0) =~= Seq::<char>::empty());
        assert(text@.skip(0) =~= text@);
        assert(piece_views(pieces@) =~= Seq::<Seq<char>>::empty());
        assert(piece_views(pieces@) + split(text@, sep@) =~= split(text@, sep@));
    }
    while i < n
        invariant
            text.is_ascii(),
            sep.is_ascii(),
            n == text@.len(),
            m == sep@.len(),
            m > 0,
            start <= i <= n,
            split(text@, sep@) == piece_views(pieces@) + split_scan(
                text@.subrange(start as int, i as int),
                text@.skip(i as int),
                sep@,
            ),
            forall|k: int| 0 <= k < pieces@.len() ==> (#[trigger] pieces@[k]).is_ascii(),
        decreases n - i,
    {
        let ghost cur = text@.subrange(start as int, i as int);
        let ghost rest = text@.skip(i as int);
        let ghost before = piece_views(pieces@);
        if matches_at(text, n, i, sep, m) {
            let piece = text.substring_ascii(start, i);
            pieces.push(piece);
            i += m;
            start = i;
            proof {
                assert(rest.skip(m as int) =~= text@.skip(i as int));
                assert(text@.subrange(start as int, i as int) =~= Seq::<char>::empty());
                assert(piece_views(pieces@) =~= before + seq![cur]);
                assert(before + (seq![cur] + split_scan(Seq::empty(), rest.skip(m as int), sep@))
                    =~= (before + seq![cur]) + split_scan(
                    Seq::empty(),
                    rest.skip(m as int),
                    sep@,
                ));
            }
        } else {
            i += 1;
            proof {
                assert(cur.push(rest[0]) =~= text@.subrange(start as int, i as int));
                assert(rest.drop_first() =~= text@.skip(i as int));
            }
        }
    }
    let ghost cur = text@.subrange(start as int, i as int);
    let ghost before = piece_views(pieces@);
    let piece = text.substring_ascii(start, n);
    pieces.push(piece);
    proof {
        assert(text@.skip(i as int).len() == 0);
        assert(piece_views(pieces@) =~= before + seq![cur]);
    }
    pieces
}

/// Every character of a text lands in a piece or in a separator: when the
/// separator and all pieces are ASCII, so was the text that was split.
pub proof fn lemma_split_preserves_ascii(cur: Seq<char>, rest: Seq<char>, sep: Seq<char>)
    requires
        vstd::utf8::is_ascii_chars(sep),
        forall|i: int|
            0 <= i < split_scan(cur, rest, sep).len() ==> vstd::utf8::is_ascii_chars(
                #[trigger] split_scan(cur, rest, sep)[i],
            ),
    ensures
        vstd::utf8::is_ascii_chars(cur),
        vstd::utf8::is_ascii_chars(rest),
    decreases rest.len(),
{
    let pieces = split_scan(cur, rest, sep);
    if sep.len() > 0 && starts_with(rest, sep) {
        let tail = split_scan(Seq::empty(), rest.skip(sep.len() as int), sep);
        assert(pieces[0] == cur);
        assert forall|i: int| 0 <= i < tail.len() implies vstd::utf8::is_ascii_chars(
            #[trigger] tail[i],
        ) by {
            assert(pieces[i + 1] == tail[i]);
        }
        lemma_split_preserves_ascii(Seq::empty(), rest.skip(sep.len() as int), sep);
        assert forall|k: int| 0 <= k < rest.len() implies '\0' <= #[trigger] rest[k]
            <= '\u{7f}' by {
            if k < sep.len() {
                assert(rest[k] == rest.take(sep.len() as int)[k]);
            } else {
                assert(rest[k] == rest.skip(sep.len() as int)[k - sep.len()]);
            }
        }
    } else if rest.len() == 0 {
        assert(pieces[0] == cur);
    } else {
        lemma_split_preserves_ascii(cur.push(rest[0]), rest.drop_first(), sep);
        assert forall|k: int| 0 <= k < cur.len() implies '\0' <= #[trigger] cur[k]
            <= '\u{7f}' by {
            assert(cur[k] == cur.push(rest[0])[k]);
        }
        assert(rest[0] == cur.push(rest[0])[cur.len() as int]);
        assert forall|k: int| 0 <= k < rest.len() implies '\0' <= #[trigger] rest[k]
            <= '\u{7f}' by {
            if k > 0 {
                assert(rest[k] == rest.drop_first()[k - 1]);
            }
        }
    }
}

/// A text that does not contain the one-character separator is a single piece.
pub proof fn lemma_split_scan_plain(cur: Seq<char>, piece: Seq<char>, sep: char)
    requires
        !piece.contains(sep),
    ensures
        split_scan(cur, piece, seq![sep]) == seq![cur + piece],
    decreases piece.len(),
{
    if piece.len() == 0 {
        assert(cur + piece =~= cur);
    } else {
        assert(piece[0] != sep);
        assert(piece.take(1)[0] == piece[0]);
        assert(!starts_with(piece, seq![sep]));
        assert forall|k: int| 0 <= k < piece.drop_first().len() implies piece.drop_first()[k]
            != sep by {
            assert(piece.drop_first()[k] == piece[k + 1]);
        }
        lemma_split_scan_plain(cur.push(piece[0]), piece.drop_first(), sep);
        assert(cur.push(piece[0]) + piece.drop_first() =~= cur + piece);
    }
}

/// Appending a separator and a piece free of it appends that piece to the
/// pieces found so far.
pub proof fn lemma_split_scan_append(cur: Seq<char>, rest: Seq<char>, sep: char, piece: Seq<char>)
    requires
        !piece.contains(sep),
    ensures
        split_scan(cur, rest + seq![sep] + piece, seq![sep]) == split_scan(
            cur,
            rest,
            seq![sep],
        ).push(piece),
    decreases rest.len(),
{
    let whole = rest + seq![sep] + piece;
    let by_sep = seq![sep];
    if rest.len() == 0 {
        assert(whole.take(1) =~= by_sep);
        assert(whole.skip(1) =~= piece);
        lemma_split_scan_plain(Seq::empty(), piece, sep);
        assert(Seq::<char>::empty() + piece =~= piece);
        assert(seq![cur] + seq![piece] =~= seq![cur].push(piece));
    } else if rest[0] == sep {
        assert(whole.take(1) =~= by_sep);
        assert(rest.take(1) =~= by_sep);
        assert(whole.skip(1) =~= rest.skip(1) + by_sep + piece);
        lemma_split_scan_append(Seq::empty(), rest.skip(1), sep, piece);
        let tail = split_scan(Seq::empty(), rest.skip(1), by_sep);
        assert(seq![cur] + tail.push(piece) =~= (seq![cur] + tail).push(piece));
    } else {
        assert(whole.take(1)[0] == rest[0]);
        assert(rest.take(1)[0] == rest[0]);
        assert(!starts_with(whole, by_sep));
        assert(!starts_with(rest, by_sep));
        assert(whole.drop_first() =~= rest.drop_first() + by_sep + piece);
        assert(whole[0] == rest[0]);
        lemma_split_scan_append(cur.push(rest[0]), rest.drop_first(), sep, piece);
    }
}

/// The value of `c` as a digit in the given radix, if it is one. Letters
/// count in either case.
pub open spec fn digit_value(c: char, radix: nat) -> Option<nat> {
    let v: int = if '0' <= c <= '9' {
        c as int - '0' as int
    } else if 'a' <= c <= 'z' {
        c as int - 'a' as int + 10
    } else if 'A' <= c <= 'Z' {
        c as int - 'A' as int + 10
    } else {
        -1
    };
    if 0 <= v < radix {
        Some(v as nat)
    } else {
        None
    }
}

/// Whether every character is a digit in the given radix.
pub open spec fn all_digits(digits: Seq<char>, radix: nat) -> bool {
    forall|i: int| 0 <= i < digits.len() ==> (#[trigger] digit_value(digits[i], radix)) is Some
}

/// The number that a run of digits denotes, most significant digit first.
pub open spec fn number(digits: Seq<char>, radix: nat) -> nat
    decreases digits.len(),
{
    if digits.len() == 0 {
        0
    } else {
        number(digits.drop_last(), radix) * radix + match digit_value(digits.last(), radix) {
            Some(d) => d,
            None => 0,
        }
    }
}

/// The octet that a non-empty run of digits denotes, if it fits in one.
pub open spec fn octet_from_digits(digits: Seq<char>, radix: nat) -> Option<u8> {
    if digits.len() > 0 && all_digits(digits, radix) && number(digits, radix) <= 255 {
        Some(number(digits, radix) as u8)
    } else {
        None
    }
}

/// A number only grows as further digits are appended.
pub proof fn lemma_number_grows(digits: Seq<char>, n: int, radix: nat)
    requires
        0 <= n <= digits.len(),
        radix >= 1,
    ensures
        number(digits.take(n), radix) <= number(digits, radix),
    decreases digits.len() - n,
{
    if n == digits.len() {
        assert(digits.take(n) =~= digits);
    } else {
        lemma_number_grows(digits.drop_last(), n, radix);
        assert(digits.drop_last().take(n) =~= digits.take(n));
        let shorter = number(digits.drop_last(), radix);
        assert(shorter <= shorter * radix) by (nonlinear_arith)
            requires
                radix >= 1,
                shorter >= 0,
        ;
    }
}

/// Reads the digits of `text` from position `from` to its end as one octet.
pub(crate) fn parse_octet_digits(text: &str, from: usize, radix: u8) -> (r: Option<u8>)
    requires
        text.is_ascii(),
        from <= text@.len(),
        1 <= radix <= 36,
    ensures
        r == octet_from_digits(text@.skip(from as int), radix as nat),
{
    let n = text.unicode_len();
    if from == n {
        return None;
    }
    let ghost digits = text@.skip(from as int);
    let mut acc: u32 = 0;
    let mut i: usize = from;
    while i < n
        invariant
            text.is_ascii(),
            n == text@.len(),
            from <= i <= n,
            1 <= radix <= 36,
            digits == text@.skip(from as int),
            all_digits(digits.take(i - from), radix as nat),
            acc == number(digits.take(i - from), radix as nat),
            acc <= 255,
        decreases n - i,
    {
        let b = text.get_ascii(i);
        let ghost c = text@[i as int];
        assert(c == digits[i - from]);
        let v: u8 = if 48 <= b && b <= 57 {
            b - 48
        } else if 97 <= b && b <= 122 {
            b - 97 + 10
        } else if 65 <= b && b <= 90 {
            b - 65 + 10
        } else {
            radix
        };
        if v >= radix {
            assert(digit_value(c, radix as nat) is None);
            return None;
        }
        assert(digit_value(c, radix as nat) == Some(v as nat));
        assert(acc * radix <= 255 * 36) by (nonlinear_arith)
            requires
                acc <= 255,
                radix <= 36,
        ;
        let next: u32 = acc * (radix as u32) + (v as u32);
        proof {
            let longer = digits.take(i - from + 1);
            assert(longer.drop_last() =~= digits.take(i - from));
            assert(longer.last() == c);
            assert(number(longer, radix as nat) == next);
            assert forall|k: int| 0 <= k < longer.len() implies (#[trigger] digit_value(
                longer[k],
                radix as nat,
            )) is Some by {
                if k < longer.len() - 1 {
                    assert(longer[k] == digits.take(i - from)[k]);
                }
            }
            if next > 255 {
                lemma_number_grows(digits, i - from + 1, radix as nat);
            }
        }
        if next > 255 {
            return None;
        }
        acc = next;
        i += 1;
    }
    assert(digits.take(i - from) =~= digits);
    Some(acc as u8)
}

} // verus!
