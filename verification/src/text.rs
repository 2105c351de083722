//! Text: decimal numbers, searching, and the order of strings.
use vstd::prelude::*;
use vstd::string::*;
use vstd::utf8::*;

verus! {

// ---------------------------------------------------------------------------
// Strings of the standard library
// ---------------------------------------------------------------------------

/// `String::push` appends one character.
pub assume_specification[ String::push ](s: &mut String, c: char)
    ensures
        final(s)@ == old(s)@.push(c),
;

/// `String::pop` takes the last character off, and gives `None` for the empty string.
pub assume_specification[ String::pop ](s: &mut String) -> (r: Option<char>)
    ensures
        old(s)@.len() == 0 ==> r is None && final(s)@ == old(s)@,
        old(s)@.len() > 0 ==> r == Some(old(s)@.last()) && final(s)@ == old(s)@.drop_last(),
;

/// The character that stands for an ASCII capital letter in lower case, and any other
/// character itself.
pub open spec fn ascii_lower(c: char) -> char {
    if 'A' <= c <= 'Z' {
        ((c as int) + 32) as char
    } else {
        c
    }
}

/// What `str::to_lowercase` makes of a text: its lower case by the Unicode tables.
pub uninterp spec fn lowercase(s: Seq<char>) -> Seq<char>;

/// `str::to_lowercase`. On ASCII text it lowers the letters `A` to `Z` and keeps the rest.
#[verifier::external_body]
pub(crate) fn to_lower(s: &str) -> (r: String)
    ensures
        r@ == lowercase(s@),
        is_ascii_chars(s@) ==> r@ == s@.map_values(|c: char| ascii_lower(c)),
{
    s.to_lowercase()
}

/// Whether a character is white space, which is a property that Unicode gives to these.
pub open spec fn is_white_space(c: char) -> bool {
    ||| '\t' <= c <= '\r'
    ||| c == ' '
    ||| c == '\u{85}'
    ||| c == '\u{a0}'
    ||| c == '\u{1680}'
    ||| '\u{2000}' <= c <= '\u{200a}'
    ||| c == '\u{2028}'
    ||| c == '\u{2029}'
    ||| c == '\u{202f}'
    ||| c == '\u{205f}'
    ||| c == '\u{3000}'
}

/// A text without the white space at its end.
pub open spec fn end_trimmed(s: Seq<char>) -> Seq<char>
    decreases s.len(),
{
    if s.len() > 0 && is_white_space(s.last()) {
        end_trimmed(s.drop_last())
    } else {
        s
    }
}

/// A text without the white space at both ends.
pub open spec fn trimmed(s: Seq<char>) -> Seq<char>
    decreases s.len(),
{
    if s.len() > 0 && is_white_space(s[0]) {
        trimmed(s.drop_first())
    } else {
        end_trimmed(s)
    }
}

/// `str::trim`: the text without the white space at both ends.
#[verifier::external_body]
pub(crate) fn trim_text(s: &str) -> (r: &str)
    ensures
        r@ == trimmed(s@),
{
    s.trim()
}

/// The text of bytes that need not be UTF-8, as `String::from_utf8_lossy` decodes them.
pub uninterp spec fn lossy(bytes: Seq<u8>) -> Seq<char>;

/// `String::from_utf8_lossy`. Valid UTF-8 is decoded as it is; elsewhere replacement
/// characters stand for what could not be decoded.
#[verifier::external_body]
pub(crate) fn lossy_text(bytes: &[u8]) -> (r: String)
    ensures
        r@ == lossy(bytes@),
        valid_utf8(bytes@) ==> r@ == decode_utf8(bytes@),
{
    String::from_utf8_lossy(bytes).into_owned()
}

/// `std::str::from_utf8`: the text of valid UTF-8, and nothing for other bytes.
#[verifier::external_body]
pub(crate) fn utf8_text(bytes: &[u8]) -> (r: Option<&str>)
    ensures
        r is Some <==> valid_utf8(bytes@),
        r matches Some(t) ==> t@ == decode_utf8(bytes@),
{
    std::str::from_utf8(bytes).ok()
}

// ---------------------------------------------------------------------------
// Decimal numbers
// ---------------------------------------------------------------------------

/// The character of a decimal digit.
pub open spec fn digit(d: nat) -> char {
    ((48 + d) as u8) as char
}

/// A number in decimal notation.
pub open spec fn decimal(n: nat) -> Seq<char>
    decreases n,
{
    if n < 10 {
        seq![digit(n)]
    } else {
        decimal(n / 10).push(digit(n % 10))
    }
}

/// An integer in decimal notation, with a minus sign where it is negative.
pub open spec fn signed_decimal(n: int) -> Seq<char> {
    if n < 0 {
        seq!['-'] + decimal((-n) as nat)
    } else {
        decimal(n as nat)
    }
}

/// `s` filled up on the left with `fill` to at least `width` characters.
pub open spec fn padded(s: Seq<char>, fill: char, width: nat) -> Seq<char>
    decreases width - s.len(),
{
    if s.len() >= width {
        s
    } else {
        padded(seq![fill] + s, fill, width)
    }
}

/// The number that a run of decimal digits stands for.
pub open spec fn decimal_value(s: Seq<char>) -> int
    decreases s.len(),
{
    if s.len() == 0 {
        0
    } else {
        decimal_value(s.drop_last()) * 10 + (s.last() as int - 48)
    }
}

/// Writes a number in decimal notation.
pub fn push_decimal(out: &mut String, n: u64)
    ensures
        final(out)@ == old(out)@ + decimal(n as nat),
    decreases n,
{
    if n < 10 {
        let c: char = (48 + n as u8) as char;
        out.push(c);
        assert(out@ =~= old(out)@ + decimal(n as nat));
    } else {
        push_decimal(out, n / 10);
        let c: char = (48 + (n % 10) as u8) as char;
        out.push(c);
        assert(out@ =~= old(out)@ + decimal(n as nat));
    }
}

/// Writes an integer in decimal notation.
pub fn push_signed_decimal(out: &mut String, n: i64)
    ensures
        final(out)@ == old(out)@ + signed_decimal(n as int),
{
    if n < 0 {
        out.push('-');
        let m: u64 = if n == i64::MIN {
            0x8000_0000_0000_0000
        } else {
            (-n) as u64
        };
        push_decimal(out, m);
        assert(out@ =~= old(out)@ + signed_decimal(n as int));
    } else {
        push_decimal(out, n as u64);
    }
}

/// Writes a number in decimal notation, filled up on the left to at least two characters.
pub fn push_two_digits(out: &mut String, n: u64, fill: char)
    ensures
        final(out)@ == old(out)@ + padded(decimal(n as nat), fill, 2),
{
    proof {
        reveal_with_fuel(padded, 2);
    }
    if n < 10 {
        out.push(fill);
        push_decimal(out, n);
        assert(out@ =~= old(out)@ + padded(decimal(n as nat), fill, 2));
    } else {
        push_decimal(out, n);
        proof {
            decimal_reads_back(n as nat / 10);
        }
    }
}

/// Reading a decimal notation gives the number back.
pub proof fn decimal_reads_back(n: nat)
    ensures
        decimal_value(decimal(n)) == n,
        decimal(n).len() > 0,
    decreases n,
{
    reveal_with_fuel(decimal_value, 2);
    if n < 10 {
        assert(decimal(n).drop_last() =~= Seq::<char>::empty());
    } else {
        decimal_reads_back(n / 10);
        assert(decimal(n).drop_last() =~= decimal(n / 10));
    }
}

/// A zero on the left of a run of digits does not change what they stand for.
pub proof fn leading_zero_counts_nothing(s: Seq<char>)
    ensures
        decimal_value(seq!['0'] + s) == decimal_value(s),
    decreases s.len(),
{
    reveal_with_fuel(decimal_value, 2);
    let longer = seq!['0'] + s;
    if s.len() == 0 {
        assert(longer.drop_last() =~= Seq::<char>::empty());
    } else {
        leading_zero_counts_nothing(s.drop_last());
        assert(longer.drop_last() =~= seq!['0'] + s.drop_last());
    }
}

/// A number that is filled up with zeros to two digits still reads as that number.
pub proof fn padded_decimal_reads_back(n: nat)
    ensures
        decimal_value(padded(decimal(n), '0', 2)) == n,
        padded(decimal(n), '0', 2).len() >= 2,
        n < 100 ==> padded(decimal(n), '0', 2).len() == 2,
{
    reveal_with_fuel(padded, 3);
    reveal_with_fuel(decimal, 3);
    decimal_reads_back(n);
    leading_zero_counts_nothing(decimal(n));
}

// ---------------------------------------------------------------------------
// Searching
// ---------------------------------------------------------------------------

/// Whether `needle` occurs in `hay` at position `at`.
pub open spec fn occurs_at(hay: Seq<char>, needle: Seq<char>, at: int) -> bool {
    0 <= at && at + needle.len() <= hay.len() && hay.subrange(at, at + needle.len()) == needle
}

/// Whether `needle` occurs in `hay`.
pub open spec fn contains(hay: Seq<char>, needle: Seq<char>) -> bool {
    exists|at: int| occurs_at(hay, needle, at)
}

/// The characters of a text.
pub fn chars_of(s: &str) -> (r: Vec<char>)
    ensures
        r@ == s@,
{
    let mut out: Vec<char> = Vec::new();
    for c in it: s.chars()
        invariant
            it.seq() == s@,
            out@ == s@.take(it.index()),
    {
        out.push(c);
        assert(out@ =~= s@.take(it.index() + 1));
    }
    assert(s@.take(s@.len() as int) =~= s@);
    out
}

/// Whether `needle` occurs in `hay`.
pub fn text_contains(hay: &str, needle: &str) -> (r: bool)
    ensures
        r == contains(hay@, needle@),
{
    let h: Vec<char> = chars_of(hay);
    let n: Vec<char> = chars_of(needle);
    let mut at: usize = 0;
    while at <= h.len() && n.len() <= h.len() - at
        invariant
            h@ == hay@,
            n@ == needle@,
            at <= h.len() + 1,
            forall|k: int| 0 <= k < at ==> !occurs_at(hay@, needle@, k),
        decreases h.len() + 1 - at,
    {
        let mut same: bool = true;
        let mut i: usize = 0;
        while same && i < n.len()
            invariant
                h@ == hay@,
                n@ == needle@,
                i <= n.len(),
                at + n.len() <= h.len(),
                same ==> hay@.subrange(at as int, at + i) =~= needle@.take(i as int),
                !same ==> !occurs_at(hay@, needle@, at as int),
            decreases n.len() - i + (if same { 1int } else { 0int }),
        {
            if h[at + i] == n[i] {
                i = i + 1;
            } else {
                same = false;
                proof {
                    if occurs_at(hay@, needle@, at as int) {
                        assert(hay@.subrange(at as int, at + needle@.len())[i as int] == needle@[i as int]);
                    }
                }
            }
        }
        if same {
            assert(needle@.take(n.len() as int) =~= needle@);
            assert(occurs_at(hay@, needle@, at as int));
            return true;
        }
        if at == h.len() {
            return false;
        }
        at = at + 1;
    }
    false
}

// ---------------------------------------------------------------------------
// The order of strings
// ---------------------------------------------------------------------------

/// Whether `a` comes before `b` in lexicographic order.
pub open spec fn bytes_less(a: Seq<u8>, b: Seq<u8>) -> bool
    decreases a.len(),
{
    if b.len() == 0 {
        false
    } else if a.len() == 0 {
        true
    } else if a[0] != b[0] {
        a[0] < b[0]
    } else {
        bytes_less(a.drop_first(), b.drop_first())
    }
}

/// Whether text `a` comes before text `b`: strings are ordered by their UTF-8 bytes.
pub open spec fn text_less(a: Seq<char>, b: Seq<char>) -> bool {
    bytes_less(encode_utf8(a), encode_utf8(b))
}

/// Of three byte strings, if neither the second comes before the first nor the third before
/// the second, then the third does not come before the first.
pub proof fn bytes_order_is_transitive(a: Seq<u8>, b: Seq<u8>, c: Seq<u8>)
    requires
        !bytes_less(b, a),
        !bytes_less(c, b),
    ensures
        !bytes_less(c, a),
    decreases a.len(),
{
    if a.len() > 0 && b.len() > 0 && c.len() > 0 && a[0] == b[0] && b[0] == c[0] {
        bytes_order_is_transitive(a.drop_first(), b.drop_first(), c.drop_first());
    }
}

/// No byte string comes before another and after it as well.
pub proof fn bytes_order_is_asymmetric(a: Seq<u8>, b: Seq<u8>)
    requires
        bytes_less(a, b),
    ensures
        !bytes_less(b, a),
    decreases a.len(),
{
    if a.len() > 0 && b.len() > 0 && a[0] == b[0] {
        bytes_order_is_asymmetric(a.drop_first(), b.drop_first());
    }
}

/// Of two byte strings one comes before the other, unless they are the same.
pub proof fn bytes_order_is_total(a: Seq<u8>, b: Seq<u8>)
    requires
        !bytes_less(a, b),
        !bytes_less(b, a),
    ensures
        a == b,
    decreases a.len(),
{
    if a.len() > 0 && b.len() > 0 {
        bytes_order_is_total(a.drop_first(), b.drop_first());
        assert(a =~= seq![a[0]] + a.drop_first());
        assert(b =~= seq![b[0]] + b.drop_first());
    } else {
        assert(a =~= b);
    }
}

/// Whether text `a` comes before text `b`.
pub fn text_before(a: &str, b: &str) -> (r: bool)
    ensures
        r == text_less(a@, b@),
{
    let x: &[u8] = a.as_bytes();
    let y: &[u8] = b.as_bytes();
    let mut i: usize = 0;
    assert(x@.skip(0) =~= x@ && y@.skip(0) =~= y@);
    while i < x.len() && i < y.len()
        invariant
            x@ == encode_utf8(a@),
            y@ == encode_utf8(b@),
            i <= x.len(),
            i <= y.len(),
            bytes_less(x@, y@) == bytes_less(x@.skip(i as int), y@.skip(i as int)),
        decreases x.len() - i,
    {
        if x[i] != y[i] {
            return x[i] < y[i];
        }
        assert(x@.skip(i as int).drop_first() =~= x@.skip(i + 1));
        assert(y@.skip(i as int).drop_first() =~= y@.skip(i + 1));
        i = i + 1;
    }
    i < y.len()
}

// ---------------------------------------------------------------------------
// What order, searching and filling up come to
// ---------------------------------------------------------------------------

/// Where two byte strings first differ, the lesser byte decides their order.
pub proof fn first_difference_decides(before: Seq<u8>, x: u8, a: Seq<u8>, y: u8, b: Seq<u8>)
    requires
        x != y,
    ensures
        bytes_less(before + seq![x] + a, before + seq![y] + b) <==> x < y,
    decreases before.len(),
{
    let s = before + seq![x] + a;
    let t = before + seq![y] + b;
    if before.len() > 0 {
        let rest = before.drop_first();
        first_difference_decides(rest, x, a, y, b);
        assert(s.drop_first() =~= rest + seq![x] + a);
        assert(t.drop_first() =~= rest + seq![y] + b);
        assert(s[0] == before[0] && t[0] == before[0]);
    } else {
        assert(s[0] == x && t[0] == y);
    }
}

/// A byte string comes before each that goes on where it ends, and not before itself.
pub proof fn shorter_comes_first(a: Seq<u8>, more: Seq<u8>)
    ensures
        bytes_less(a, a + more) <==> more.len() > 0,
        !bytes_less(a + more, a),
    decreases a.len(),
{
    if a.len() > 0 {
        shorter_comes_first(a.drop_first(), more);
        assert((a + more).drop_first() =~= a.drop_first() + more);
        assert((a + more)[0] == a[0]);
    }
}

/// A text occurs in another where that is made of something before it, itself, and something
/// behind it.
pub proof fn text_occurs_in_what_surrounds_it(hay: Seq<char>, needle: Seq<char>)
    ensures
        contains(hay, needle) <==> exists|before: Seq<char>, after: Seq<char>|
            hay == #[trigger] (before + needle + after),
{
    if contains(hay, needle) {
        let at = choose|at: int| occurs_at(hay, needle, at);
        let before = hay.take(at);
        let after = hay.skip(at + needle.len());
        assert(hay =~= before + needle + after);
    }
    if exists|before: Seq<char>, after: Seq<char>| hay == #[trigger] (before + needle + after) {
        let (before, after) = choose|before: Seq<char>, after: Seq<char>|
            hay == #[trigger] (before + needle + after);
        assert(hay.subrange(before.len() as int, (before.len() + needle.len()) as int) =~= needle);
        assert(occurs_at(hay, needle, before.len() as int));
    }
}

/// Filling up puts as many characters on the left as are missing, and changes nothing else.
pub proof fn filling_up_adds_what_is_missing(s: Seq<char>, fill: char, width: nat)
    ensures
        ({
            let missing = if s.len() < width {
                (width - s.len()) as nat
            } else {
                0
            };
            padded(s, fill, width) == Seq::new(missing, |i: int| fill) + s
        }),
    decreases width - s.len(),
{
    if s.len() < width {
        filling_up_adds_what_is_missing(seq![fill] + s, fill, width);
        assert(padded(s, fill, width) =~= Seq::new((width - s.len()) as nat, |i: int| fill) + s);
    } else {
        assert(padded(s, fill, width) =~= Seq::new(0, |i: int| fill) + s);
    }
}

/// A number in decimal notation is made of digits, of which the first is no zero unless it is the
/// only one.
pub proof fn decimal_is_made_of_digits(n: nat)
    ensures
        forall|i: int| 0 <= i < decimal(n).len() ==> '0' <= #[trigger] decimal(n)[i] <= '9',
        n > 0 ==> decimal(n)[0] != '0',
        n == 0 ==> decimal(n) == seq!['0'],
    decreases n,
{
    if n >= 10 {
        decimal_is_made_of_digits(n / 10);
        decimal_reads_back(n / 10);
    }
}

/// A negative number is written as its opposite behind a minus sign.
pub proof fn negative_number_has_a_sign(n: int)
    ensures
        n < 0 ==> signed_decimal(n) == seq!['-'] + signed_decimal(-n),
        n >= 0 ==> decimal_value(signed_decimal(n)) == n,
{
    if n >= 0 {
        decimal_reads_back(n as nat);
    }
}

/// White space at either end of a text is taken off, and nothing else of it.
pub proof fn trimming_takes_the_ends_off(before: Seq<char>, text: Seq<char>, after: Seq<char>)
    requires
        forall|i: int| 0 <= i < before.len() ==> is_white_space(#[trigger] before[i]),
        forall|i: int| 0 <= i < after.len() ==> is_white_space(#[trigger] after[i]),
        text.len() > 0 ==> !is_white_space(text[0]) && !is_white_space(text.last()),
    ensures
        trimmed(before + text + after) == text,
    decreases before.len(),
{
    let all = before + text + after;
    if before.len() > 0 {
        assert(all[0] == before[0]);
        assert(all.drop_first() =~= before.drop_first() + text + after);
        trimming_takes_the_ends_off(before.drop_first(), text, after);
    } else if text.len() > 0 {
        assert(all =~= text + after);
        assert(all[0] == text[0]);
        lemma_end_trimmed(text, after);
    } else {
        assert(all =~= after);
        lemma_blank_is_trimmed(after);
        assert(text =~= Seq::empty());
    }
}

proof fn lemma_end_trimmed(text: Seq<char>, after: Seq<char>)
    requires
        text.len() > 0,
        !is_white_space(text.last()),
        forall|i: int| 0 <= i < after.len() ==> is_white_space(#[trigger] after[i]),
    ensures
        end_trimmed(text + after) == text,
    decreases after.len(),
{
    if after.len() > 0 {
        assert((text + after).last() == after.last());
        assert((text + after).drop_last() =~= text + after.drop_last());
        lemma_end_trimmed(text, after.drop_last());
    } else {
        assert(text + after =~= text);
    }
}

proof fn lemma_blank_is_trimmed(s: Seq<char>)
    requires
        forall|i: int| 0 <= i < s.len() ==> is_white_space(#[trigger] s[i]),
    ensures
        trimmed(s) == Seq::<char>::empty(),
    decreases s.len(),
{
    if s.len() > 0 {
        lemma_blank_is_trimmed(s.drop_first());
    } else {
        assert(s =~= Seq::empty());
    }
}

/// The space, the tab and the ends of lines are white space; letters, digits and signs that can
/// be seen are not.
pub proof fn white_space_cannot_be_seen(c: char)
    ensures
        is_white_space(' ') && is_white_space('\t') && is_white_space('\n') && is_white_space('\r'),
        '!' <= c <= '~' ==> !is_white_space(c),
        is_white_space(c) ==> c <= ' ' || c > '~',
{
}

}
