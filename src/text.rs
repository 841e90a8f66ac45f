use vstd::prelude::*;

verus! {

/// Value of an ASCII hexadecimal digit, if `c` is one.
pub open spec fn hex_digit(c: char) -> Option<nat> {
    if '0' <= c && c <= '9' {
        Some((c as nat - '0' as nat) as nat)
    } else if 'a' <= c && c <= 'f' {
        Some((c as nat - 'a' as nat + 10) as nat)
    } else if 'A' <= c && c <= 'F' {
        Some((c as nat - 'A' as nat + 10) as nat)
    } else {
        None
    }
}

pub open spec fn all_hex(s: Seq<char>) -> bool {
    forall|i: int| 0 <= i < s.len() ==> (#[trigger] hex_digit(s[i])) is Some
}

/// Number written by the hexadecimal digits `s`, most significant first.
pub open spec fn hex_number(s: Seq<char>) -> nat
    decreases s.len(),
{
    if s.len() == 0 {
        0
    } else {
        hex_number(s.drop_last()) * 16 + match hex_digit(s.last()) {
            Some(d) => d,
            None => 0,
        }
    }
}

/// A 16-bit number written in hexadecimal: at least one digit, nothing but
/// digits, and a value below 2^16.
pub open spec fn hex_u16(s: Seq<char>) -> Option<u16> {
    if s.len() > 0 && all_hex(s) && hex_number(s) < 0x10000 {
        Some(hex_number(s) as u16)
    } else {
        None
    }
}

proof fn lemma_hex_number_grows(s: Seq<char>, k: int)
    requires
        0 <= k <= s.len(),
        all_hex(s),
    ensures
        hex_number(s.take(k)) <= hex_number(s),
    decreases s.len() - k,
{
    if k < s.len() {
        lemma_hex_number_grows(s, k + 1);
        assert(s.take(k + 1).drop_last() =~= s.take(k));
        assert(hex_digit(s[k]) is Some);
    } else {
        assert(s.take(k) =~= s);
    }
}

fn digit_value(c: char) -> (r: Option<u32>)
    ensures
        r matches Some(v) ==> hex_digit(c) == Some(v as nat) && v < 16,
        r is None ==> hex_digit(c) is None,
{
    if '0' <= c && c <= '9' {
        Some(c as u32 - '0' as u32)
    } else if 'a' <= c && c <= 'f' {
        Some(c as u32 - 'a' as u32 + 10)
    } else if 'A' <= c && c <= 'F' {
        Some(c as u32 - 'A' as u32 + 10)
    } else {
        None
    }
}

/// Reads a 16-bit number written in hexadecimal digits.
pub fn parse_hex_u16(s: &str) -> (r: Option<u16>)
    ensures
        r == hex_u16(s@),
{
    let n = s.unicode_len();
    if n == 0 {
        return None;
    }
    let mut acc: u32 = 0;
    let mut i: usize = 0;
    while i < n
        invariant
            n == s@.len(),
            0 <= i <= n,
            all_hex(s@.take(i as int)),
            acc as nat == hex_number(s@.take(i as int)),
            acc < 0x10000,
        decreases n - i,
    {
        let c = s.get_char(i);
        let d = match digit_value(c) {
            Some(d) => d,
            None => {
                assert(!all_hex(s@)) by {
                    assert(hex_digit(s@[i as int]) is None);
                }
                return None;
            },
        };
        assert(s@.take(i + 1).drop_last() =~= s@.take(i as int));
        acc = acc * 16 + d;
        i = i + 1;
        assert(all_hex(s@.take(i as int))) by {
            assert forall|j: int| 0 <= j < i implies (#[trigger] hex_digit(s@.take(i as int)[j])) is Some by {
                if j < i - 1 {
                    assert(s@.take(i as int)[j] == s@.take(i - 1)[j]);
                }
            }
        }
        if acc >= 0x10000 {
            proof {
                if all_hex(s@) {
                    lemma_hex_number_grows(s@, i as int);
                }
            }
            return None;
        }
    }
    assert(s@.take(n as int) =~= s@);
    Some(acc as u16)
}

/// The ASCII digit for `d < 10`.
pub open spec fn decimal_digit(d: nat) -> char {
    ('0' as nat + d) as char
}

/// Decimal digits of `n`, most significant first, without leading zeros.
pub open spec fn decimal_digits(n: nat) -> Seq<char>
    decreases n,
{
    if n < 10 {
        seq![decimal_digit(n)]
    } else {
        decimal_digits(n / 10).push(decimal_digit(n % 10))
    }
}

/// Decimal notation of `v`, with a leading `-` when it is negative.
pub open spec fn decimal(v: int) -> Seq<char> {
    if v < 0 {
        seq!['-'] + decimal_digits((-v) as nat)
    } else {
        decimal_digits(v as nat)
    }
}

/// Relies on `i32::to_string` (the `Display` of `i32`): plain decimal notation.
#[verifier::external_body]
pub(crate) fn decimal_string(v: i32) -> (r: String)
    ensures
        r@ == decimal(v as int),
{
    v.to_string()
}

/// What `String::from_utf16_lossy` makes of the code units `units`.
pub uninterp spec fn utf16_lossy(units: Seq<u16>) -> Seq<char>;

/// Relies on `String::from_utf16_lossy`: decodes UTF-16, putting U+FFFD in
/// place of each unpaired surrogate.
#[verifier::external_body]
pub(crate) fn decode_utf16_lossy(units: &[u16]) -> (r: String)
    ensures
        r@ == utf16_lossy(units@),
        units@.len() == 0 ==> r@.len() == 0,
{
    String::from_utf16_lossy(units)
}

/// Capture group 1 of the leftmost match of the regular expression `pattern`
/// in `text`, as the `regex` crate finds it; `None` where the pattern does not
/// compile, nothing matches, or the group takes no part in the match.
pub uninterp spec fn first_group(pattern: Seq<char>, text: Seq<char>) -> Option<Seq<char>>;

/// Relies on `regex::Regex::new` and `regex::Regex::captures`: compiles
/// `pattern` and hands back the text of capture group 1 of the leftmost match.
#[verifier::external_body]
pub(crate) fn first_capture(pattern: &str, text: &str) -> (r: Option<String>)
    ensures
        r matches Some(g) ==> first_group(pattern@, text@) == Some(g@),
        r is None ==> first_group(pattern@, text@) is None,
{
    let re = regex::Regex::new(pattern).ok()?;
    re.captures(text)?.get(1).map(|m| m.as_str().to_string())
}

} // verus!
