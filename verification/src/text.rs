//! Verified text building: decimal and hexadecimal rendering of integers,
//! parsing of hexadecimal fields, and character-level access to strings.
use vstd::prelude::*;

verus! {

/// The ASCII character of a decimal digit.
pub open spec fn digit_char(d: nat) -> char {
    (48 + d) as char
}

/// Lowercase hexadecimal digit character.
pub open spec fn hex_char(d: nat) -> char {
    if d < 10 {
        (48 + d) as char
    } else {
        (87 + d) as char
    }
}

/// Decimal rendering of a natural number, as `{}` formats an unsigned integer.
pub open spec fn decimal(n: nat) -> Seq<char>
    decreases n,
{
    if n < 10 {
        seq![digit_char(n)]
    } else {
        decimal(n / 10).push(digit_char(n % 10))
    }
}

/// Decimal rendering of a signed integer, as `{}` formats it.
pub open spec fn signed_decimal(n: int) -> Seq<char> {
    if n < 0 {
        seq!['-'] + decimal((-n) as nat)
    } else {
        decimal(n as nat)
    }
}

/// The last `width` lowercase hexadecimal digits of `n`, zero padded.
pub open spec fn hex_fixed(n: nat, width: nat) -> Seq<char>
    decreases width,
{
    if width == 0 {
        Seq::empty()
    } else {
        hex_fixed(n / 16, (width - 1) as nat).push(hex_char(n % 16))
    }
}

/// Appends one character to a string (`String::push`).
#[verifier::external_body]
pub(crate) fn string_push(s: &mut String, c: char)
    ensures
        final(s)@ == old(s)@.push(c),
{
    s.push(c)
}

/// The character of decimal digit `d`.
pub fn digit(d: u64) -> (c: char)
    requires
        d < 10,
    ensures
        c == digit_char(d as nat),
{
    let b: u8 = 48u8 + (d as u8);
    b as char
}

/// The lowercase hexadecimal character of `d`.
pub fn hex_digit(d: u64) -> (c: char)
    requires
        d < 16,
    ensures
        c == hex_char(d as nat),
{
    if d < 10 {
        let b: u8 = 48u8 + (d as u8);
        b as char
    } else {
        let b: u8 = 87u8 + (d as u8);
        b as char
    }
}

/// Appends the decimal rendering of `n`.
pub fn push_decimal(s: &mut String, n: u64)
    ensures
        final(s)@ == old(s)@ + decimal(n as nat),
    decreases n,
{
    if n >= 10 {
        push_decimal(s, n / 10);
        string_push(s, digit(n % 10));
        assert(decimal(n as nat) == decimal((n / 10) as nat).push(digit_char((n % 10) as nat)));
    } else {
        string_push(s, digit(n));
        assert(decimal(n as nat) == seq![digit_char(n as nat)]);
    }
    assert(final(s)@ =~= old(s)@ + decimal(n as nat));
}

/// Appends the decimal rendering of a signed integer.
pub fn push_signed_decimal(s: &mut String, n: i64)
    ensures
        final(s)@ == old(s)@ + signed_decimal(n as int),
{
    if n < 0 {
        string_push(s, '-');
        let m: u64 = if n == i64::MIN {
            9223372036854775808u64
        } else {
            (-n) as u64
        };
        push_decimal(s, m);
        assert(final(s)@ =~= old(s)@ + signed_decimal(n as int));
    } else {
        push_decimal(s, n as u64);
    }
}

/// Appends `width` lowercase hexadecimal digits of `n` (zero padded, as `{:0width$x}`
/// renders a value that fits in `width` digits).
pub fn push_hex_fixed(s: &mut String, n: u64, width: u64)
    requires
        width <= 16,
    ensures
        final(s)@ == old(s)@ + hex_fixed(n as nat, width as nat),
    decreases width,
{
    if width > 0 {
        push_hex_fixed(s, n / 16, width - 1);
        string_push(s, hex_digit(n % 16));
        assert(hex_fixed(n as nat, width as nat) == hex_fixed((n / 16) as nat, (width - 1) as nat).push(
            hex_char((n % 16) as nat),
        ));
    }
    assert(final(s)@ =~= old(s)@ + hex_fixed(n as nat, width as nat));
}

/// Two lowercase hexadecimal digits per byte, in order (as `{:02x}` per byte).
pub open spec fn hex_bytes(bs: Seq<u8>) -> Seq<char>
    decreases bs.len(),
{
    if bs.len() == 0 {
        Seq::empty()
    } else {
        hex_bytes(bs.drop_last()) + hex_fixed(bs.last() as nat, 2)
    }
}

/// Appends two lowercase hexadecimal digits for each byte.
pub fn push_hex_bytes(s: &mut String, bs: &[u8])
    ensures
        final(s)@ == old(s)@ + hex_bytes(bs@),
{
    let mut i: usize = 0;
    let ghost start = s@;
    while i < bs.len()
        invariant
            i <= bs@.len(),
            s@ == start + hex_bytes(bs@.subrange(0, i as int)),
        decreases bs.len() - i,
    {
        push_hex_fixed(s, bs[i] as u64, 2);
        let ghost pre = bs@.subrange(0, i as int);
        i = i + 1;
        assert(bs@.subrange(0, i as int).drop_last() =~= pre);
        assert(s@ =~= start + hex_bytes(bs@.subrange(0, i as int)));
    }
    assert(bs@.subrange(0, i as int) =~= bs@);
}

/// Appends a string slice.
pub fn push_str(s: &mut String, t: &str)
    ensures
        final(s)@ == old(s)@ + t@,
{
    s.append(t);
}

/// The characters of a string slice, in order.
pub fn str_chars(t: &str) -> (v: Vec<char>)
    ensures
        v@ == t@,
{
    let n = t.unicode_len();
    let mut v: Vec<char> = Vec::new();
    let mut i: usize = 0;
    while i < n
        invariant
            n == t@.len(),
            i <= n,
            v@ == t@.subrange(0, i as int),
        decreases n - i,
    {
        v.push(t.get_char(i));
        i = i + 1;
        assert(v@ =~= t@.subrange(0, i as int));
    }
    assert(v@ =~= t@);
    v
}

/// The value of a hexadecimal digit character (either case), if it is one.
pub open spec fn hex_value(c: char) -> Option<nat> {
    if '0' <= c && c <= '9' {
        Some((c as int - 48) as nat)
    } else if 'a' <= c && c <= 'f' {
        Some((c as int - 87) as nat)
    } else if 'A' <= c && c <= 'F' {
        Some((c as int - 55) as nat)
    } else {
        None
    }
}

/// Value of a non-empty run of hexadecimal digits, if every character is one.
pub open spec fn hex_digits_value(s: Seq<char>) -> Option<nat>
    decreases s.len(),
{
    if s.len() == 0 {
        Some(0)
    } else {
        match (hex_digits_value(s.drop_last()), hex_value(s.last())) {
            (Some(hi), Some(lo)) => Some(hi * 16 + lo),
            _ => None,
        }
    }
}

/// What `from_str_radix(s, 16)` accepts for an unsigned type whose maximum is `max`:
/// an optional leading `+`, then at least one hexadecimal digit, with a value at most `max`.
pub open spec fn parse_hex_unsigned(s: Seq<char>, max: nat) -> Option<nat> {
    let digits = if s.len() > 0 && s[0] == '+' { s.drop_first() } else { s };
    if digits.len() == 0 {
        None
    } else {
        match hex_digits_value(digits) {
            Some(v) => if v <= max { Some(v) } else { None },
            None => None,
        }
    }
}

/// Parses hexadecimal digits of `s[start..end]` into a `u64` bounded by `max`.
pub fn parse_hex(s: &Vec<char>, start: usize, end: usize, max: u64) -> (r: Option<u64>)
    requires
        start <= end <= s@.len(),
    ensures
        match parse_hex_unsigned(s@.subrange(start as int, end as int), max as nat) {
            Some(v) => r == Some(v as u64),
            None => r is None,
        },
{
    let ghost whole = s@.subrange(start as int, end as int);
    let mut i = start;
    if i < end && s[i] == '+' {
        i = i + 1;
    }
    let ghost digits = s@.subrange(i as int, end as int);
    assert(digits =~= (if whole.len() > 0 && whole[0] == '+' { whole.drop_first() } else { whole }));
    if i == end {
        return None;
    }
    let first = i;
    let mut acc: u64 = 0;
    // once the value exceeds `max` the parse fails, but the digits must still be checked
    let mut over = false;
    while i < end
        invariant
            first <= i <= end <= s@.len(),
            first < end,
            digits == s@.subrange(first as int, end as int),
            whole == s@.subrange(start as int, end as int),
            digits == (if whole.len() > 0 && whole[0] == '+' { whole.drop_first() } else { whole }),
            match hex_digits_value(s@.subrange(first as int, i as int)) {
                Some(v) => (over <==> v > max) && (!over ==> acc == v),
                None => false,
            },
        decreases end - i,
    {
        let c = s[i];
        let d: u64 = if '0' <= c && c <= '9' {
            (c as u32 - 48u32) as u64
        } else if 'a' <= c && c <= 'f' {
            (c as u32 - 87u32) as u64
        } else if 'A' <= c && c <= 'F' {
            (c as u32 - 55u32) as u64
        } else {
            proof {
                let pre = s@.subrange(first as int, i as int);
                lemma_hex_prefix_none(s@.subrange(first as int, end as int), (i - first) as int);
            }
            return None;
        };
        let ghost pre = s@.subrange(first as int, i as int);
        let ghost next = s@.subrange(first as int, i + 1);
        assert(next.drop_last() =~= pre);
        assert(next.last() == c);
        proof {
            lemma_hex_step(pre, next, c);
        }
        if !over {
            if d > max || acc > (max - d) / 16 {
                proof {
                    lemma_hex_overflow(acc as int, d as int, max as int);
                }
                over = true;
            } else {
                proof {
                    lemma_hex_fits(acc as int, d as int, max as int);
                }
                acc = acc * 16 + d;
            }
        } else {
            proof {
                let v = hex_digits_value(pre).unwrap();
                assert(v * 16 + d as int > max) by (nonlinear_arith)
                    requires v > max as int, d >= 0;
            }
        }
        i = i + 1;
    }
    assert(s@.subrange(first as int, end as int) =~= digits);
    if over {
        None
    } else {
        Some(acc)
    }
}

proof fn lemma_hex_step(pre: Seq<char>, next: Seq<char>, c: char)
    requires
        next.len() > 0,
        next.drop_last() == pre,
        next.last() == c,
        hex_value(c) is Some,
    ensures
        hex_digits_value(next) == match hex_digits_value(pre) {
            Some(hi) => Some(hi * 16 + hex_value(c).unwrap()),
            None => None::<nat>,
        },
{
}

proof fn lemma_hex_overflow(acc: int, d: int, max: int)
    requires
        0 <= acc,
        0 <= d,
        0 <= max,
        d > max || acc > (max - d) / 16,
    ensures
        acc * 16 + d > max,
{
    if d <= max {
        assert(acc * 16 + d > max) by (nonlinear_arith)
            requires acc > (max - d) / 16, d <= max, 0 <= d;
    }
}

proof fn lemma_hex_fits(acc: int, d: int, max: int)
    requires
        0 <= acc,
        0 <= d <= max,
        acc <= (max - d) / 16,
    ensures
        acc * 16 + d <= max,
{
    assert(acc * 16 + d <= max) by (nonlinear_arith)
        requires acc <= (max - d) / 16, d <= max, 0 <= d;
}

/// A non-digit inside a run makes the whole run invalid.
proof fn lemma_hex_prefix_none(s: Seq<char>, k: int)
    requires
        0 <= k < s.len(),
        hex_value(s[k]) is None,
    ensures
        hex_digits_value(s) is None,
    decreases s.len(),
{
    if k < s.len() - 1 {
        lemma_hex_prefix_none(s.drop_last(), k);
    }
}

/// The items of a byte list as `{:?}` writes them: decimals joined by `, `.
pub open spec fn debug_items(bs: Seq<u8>) -> Seq<char>
    decreases bs.len(),
{
    if bs.len() == 0 {
        Seq::empty()
    } else if bs.len() == 1 {
        decimal(bs[0] as nat)
    } else {
        debug_items(bs.drop_last()) + ", "@ + decimal(bs.last() as nat)
    }
}

/// `{:?}` of a byte array or slice: `[b0, b1, ...]`.
pub open spec fn debug_bytes(bs: Seq<u8>) -> Seq<char> {
    "["@ + debug_items(bs) + "]"@
}

/// Appends the `{:?}` form of a byte slice.
pub fn push_debug_bytes(s: &mut String, bs: &[u8])
    ensures
        final(s)@ == old(s)@ + debug_bytes(bs@),
{
    let ghost start = s@;
    push_str(s, "[");
    let mut i: usize = 0;
    assert(bs@.take(0) =~= Seq::<u8>::empty());
    while i < bs.len()
        invariant
            i <= bs@.len(),
            s@ == start + "["@ + debug_items(bs@.take(i as int)),
        decreases bs.len() - i,
    {
        if i > 0 {
            push_str(s, ", ");
        }
        push_decimal(s, bs[i] as u64);
        proof {
            let t = bs@.take(i as int + 1);
            assert(t.drop_last() =~= bs@.take(i as int));
            assert(t.last() == bs@[i as int]);
            if i == 0 {
                assert(t.len() == 1);
            }
        }
        i = i + 1;
    }
    assert(bs@.take(bs@.len() as int) =~= bs@);
    push_str(s, "]");
}

/// Appends the bytes of a slice to a byte vector.
pub fn append_bytes(v: &mut Vec<u8>, bs: &[u8])
    ensures
        final(v)@ == old(v)@ + bs@,
{
    let ghost start = v@;
    let mut i: usize = 0;
    while i < bs.len()
        invariant
            i <= bs@.len(),
            v@ == start + bs@.take(i as int),
        decreases bs.len() - i,
    {
        v.push(bs[i]);
        i = i + 1;
        assert(v@ =~= start + bs@.take(i as int));
    }
    assert(bs@.take(bs@.len() as int) =~= bs@);
}

/// Equality of two string slices, character by character.
pub fn str_equal(a: &str, b: &str) -> (r: bool)
    ensures
        r == (a@ == b@),
{
    let n = a.unicode_len();
    let m = b.unicode_len();
    if n != m {
        return false;
    }
    let mut i: usize = 0;
    while i < n
        invariant
            n == a@.len(),
            m == b@.len(),
            n == m,
            i <= n,
            forall|j: int| 0 <= j < i ==> a@[j] == b@[j],
        decreases n - i,
    {
        if a.get_char(i) != b.get_char(i) {
            return false;
        }
        i = i + 1;
    }
    assert(a@ =~= b@);
    true
}

/// A character that `{:?}` writes unchanged inside a quoted string: printable ASCII other
/// than the double quote and the backslash.
pub open spec fn plain_debug_char(c: char) -> bool {
    ' ' <= c && c <= '~' && c != '"' && c != '\\'
}

/// `{:?}` of a string slice: the text between double quotes, with characters escaped as
/// `char::escape_debug` does.
pub uninterp spec fn debug_str(s: Seq<char>) -> Seq<char>;

/// `format!("{:?}", t)`, std's `Debug` for `str`. The result is named `debug_str` of the
/// characters; where every character is plain printable ASCII, `Debug` quotes the text
/// and escapes nothing.
#[verifier::external_body]
pub(crate) fn debug_string(t: &str) -> (r: String)
    ensures
        r@ == debug_str(t@),
        (forall|i: int| 0 <= i < t@.len() ==> plain_debug_char(#[trigger] t@[i])) ==> r@ == "\""@
            + t@ + "\""@,
{
    format!("{:?}", t)
}

/// `hex_fixed` has exactly the requested width.
pub proof fn lemma_hex_fixed_len(n: nat, width: nat)
    ensures
        hex_fixed(n, width).len() == width,
    decreases width,
{
    if width > 0 {
        lemma_hex_fixed_len(n / 16, (width - 1) as nat);
    }
}

/// Two hexadecimal digits per byte.
pub proof fn lemma_hex_bytes_len(bs: Seq<u8>)
    ensures
        hex_bytes(bs).len() == 2 * bs.len(),
    decreases bs.len(),
{
    if bs.len() > 0 {
        lemma_hex_bytes_len(bs.drop_last());
        lemma_hex_fixed_len(bs.last() as nat, 2);
    }
}

/// Sixteen to the power `w`.
pub open spec fn pow16(w: nat) -> nat
    decreases w,
{
    if w == 0 {
        1
    } else {
        16 * pow16((w - 1) as nat)
    }
}

/// A digit character reads back as its value.
pub proof fn lemma_hex_char_value(d: nat)
    requires
        d < 16,
    ensures
        hex_value(hex_char(d)) == Some(d),
{
}

/// Digits written by `hex_fixed` read back as the number, when it fits the width.
pub proof fn lemma_hex_fixed_value(n: nat, width: nat)
    requires
        n < pow16(width),
    ensures
        hex_digits_value(hex_fixed(n, width)) == Some(n),
    decreases width,
{
    if width > 0 {
        let w = (width - 1) as nat;
        assert(n / 16 < pow16(w)) by (nonlinear_arith)
            requires n < 16 * pow16(w);
        lemma_hex_fixed_value(n / 16, w);
        lemma_hex_char_value(n % 16);
        let h = hex_fixed(n, width);
        assert(h.drop_last() =~= hex_fixed(n / 16, w));
        assert(h.last() == hex_char(n % 16));
        assert((n / 16) * 16 + n % 16 == n) by (nonlinear_arith);
    } else {
        assert(n == 0);
    }
}

/// No character written by `hex_fixed` is a `-` or a `+`.
pub proof fn lemma_hex_fixed_chars(n: nat, width: nat)
    ensures
        forall|i: int| 0 <= i < hex_fixed(n, width).len() ==> #[trigger] hex_fixed(n, width)[i] != '-'
            && hex_fixed(n, width)[i] != '+',
    decreases width,
{
    if width > 0 {
        lemma_hex_fixed_chars(n / 16, (width - 1) as nat);
        let h = hex_fixed(n, width);
        assert forall|i: int| 0 <= i < h.len() implies #[trigger] h[i] != '-' && h[i] != '+' by {
            if i < h.len() - 1 {
                assert(h[i] == hex_fixed(n / 16, (width - 1) as nat)[i]);
            }
        }
    }
}

/// Value of a run of decimal digit characters.
pub open spec fn decimal_value(s: Seq<char>) -> nat
    decreases s.len(),
{
    if s.len() == 0 {
        0
    } else {
        decimal_value(s.drop_last()) * 10 + (s.last() as int - 48) as nat
    }
}

/// Decimal renderings hold digit characters only and read back as their number, so
/// distinct numbers render differently.
pub proof fn lemma_decimal_reads_back(n: nat)
    ensures
        decimal(n).len() >= 1,
        forall|i: int| 0 <= i < decimal(n).len() ==> '0' <= #[trigger] decimal(n)[i] && decimal(n)[i] <= '9',
        decimal_value(decimal(n)) == n,
    decreases n,
{
    if n >= 10 {
        lemma_decimal_reads_back(n / 10);
        let d = decimal(n);
        assert(d.drop_last() =~= decimal(n / 10));
        assert(d.last() == digit_char(n % 10));
        assert forall|i: int| 0 <= i < d.len() implies '0' <= #[trigger] d[i] && d[i] <= '9' by {
            if i < d.len() - 1 {
                assert(d[i] == decimal(n / 10)[i]);
            }
        }
        assert((n / 10) * 10 + n % 10 == n) by (nonlinear_arith);
        assert(d.last() as int == 48 + n % 10);
        assert(decimal_value(d) == decimal_value(decimal(n / 10)) * 10 + n % 10);
    } else {
        let d = decimal(n);
        assert(d.drop_last() =~= Seq::<char>::empty());
        assert(d.last() as int == 48 + n);
        assert(decimal_value(d.drop_last()) == 0);
    }
}

} // verus!
