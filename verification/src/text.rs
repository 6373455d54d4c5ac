//! Decimal rendering and parsing of integers, and text read from fixed-size
//! byte fields.
use vstd::prelude::*;
use vstd::utf8::*;

verus! {

/// The character of the decimal digit `d` (`0 <= d < 10`).
pub open spec fn digit_char(d: int) -> char {
    (d + 48) as char
}

/// The numeric value of a decimal digit character.
pub open spec fn digit_value(c: char) -> int {
    c as int - 48
}

/// Whether `c` is an ASCII decimal digit.
pub open spec fn is_digit(c: char) -> bool {
    '0' <= c && c <= '9'
}

/// Decimal rendering of a natural number: no sign, no leading zeros.
pub open spec fn decimal(n: nat) -> Seq<char>
    decreases n,
{
    if n < 10 {
        seq![digit_char(n as int)]
    } else {
        decimal(n / 10).push(digit_char((n % 10) as int))
    }
}

/// Decimal rendering of an integer, with a leading `-` when it is negative.
pub open spec fn signed_decimal(v: int) -> Seq<char> {
    if v < 0 {
        seq!['-'] + decimal((-v) as nat)
    } else {
        decimal(v as nat)
    }
}

/// Value of a string of decimal digits, most significant first.
pub open spec fn digits_value(s: Seq<char>) -> int
    decreases s.len(),
{
    if s.len() == 0 {
        0
    } else {
        digits_value(s.drop_last()) * 10 + digit_value(s.last())
    }
}

pub open spec fn all_digits(s: Seq<char>) -> bool {
    forall|i: int| 0 <= i < s.len() ==> is_digit(#[trigger] s[i])
}

/// The digits of an unsigned number: the text with one leading `+` removed.
pub open spec fn unsigned_digits(s: Seq<char>) -> Seq<char> {
    if s.len() > 0 && s[0] == '+' {
        s.drop_first()
    } else {
        s
    }
}

/// What parsing `s` as a `u32` gives: an optional `+`, then one or more
/// ASCII digits whose value fits in 32 bits.
pub open spec fn decimal_u32_value(s: Seq<char>) -> Option<u32> {
    let d = unsigned_digits(s);
    if d.len() > 0 && all_digits(d) && digits_value(d) <= u32::MAX {
        Some(digits_value(d) as u32)
    } else {
        None
    }
}

/// Text of a NUL-terminated field: the bytes before the first NUL, or
/// `None` when the field holds no NUL.
pub open spec fn until_nul(bytes: Seq<u8>) -> Option<Seq<u8>> {
    if exists|i: int| 0 <= i < bytes.len() && bytes[i] == 0 {
        let k = choose|i: int|
            0 <= i < bytes.len() && bytes[i] == 0 && forall|j: int| 0 <= j < i ==> bytes[j] != 0;
        Some(bytes.take(k))
    } else {
        None
    }
}

/// What `String::from_utf8_lossy` gives for `bytes`.
pub uninterp spec fn utf8_lossy_text(bytes: Seq<u8>) -> Seq<char>;

/// The label a NUL-terminated name field stands for: its text up to the
/// first NUL, decoded with invalid UTF-8 replaced, or `Unknown` when the
/// field holds no NUL.
pub open spec fn c_label_text(bytes: Seq<u8>) -> Seq<char> {
    match until_nul(bytes) {
        Some(b) => utf8_lossy_text(b),
        None => seq!['U', 'n', 'k', 'n', 'o', 'w', 'n'],
    }
}

proof fn lemma_decimal_facts(n: nat)
    ensures
        decimal(n).len() > 0,
        all_digits(decimal(n)),
        digits_value(decimal(n)) == n,
        decimal(n)[0] != '+',
        decimal(n)[0] != '-',
    decreases n,
{
    assert(digit_value(digit_char((n % 10) as int)) == n % 10);
    if n >= 10 {
        lemma_decimal_facts(n / 10);
        let d = decimal(n);
        assert(d.drop_last() =~= decimal(n / 10));
        assert forall|i: int| 0 <= i < d.len() implies is_digit(#[trigger] d[i]) by {
            if i < d.len() - 1 {
                assert(d[i] == decimal(n / 10)[i]);
            }
        }
        assert(digits_value(d) == digits_value(decimal(n / 10)) * 10 + n % 10);
    } else {
        let d = decimal(n);
        assert(d.drop_last() =~= Seq::<char>::empty());
        assert(digits_value(d.drop_last()) == 0);
    }
}

/// Decimal rendering is read back by `u32` parsing.
pub proof fn lemma_decimal_u32_roundtrip(n: u32)
    ensures
        decimal_u32_value(decimal(n as nat)) == Some(n),
{
    lemma_decimal_facts(n as nat);
}

/// Distinct numbers have distinct decimal renderings.
pub proof fn lemma_decimal_injective(a: nat, b: nat)
    requires
        decimal(a) == decimal(b),
    ensures
        a == b,
{
    lemma_decimal_facts(a);
    lemma_decimal_facts(b);
}

/// Appends the digit `d` to `s`.
fn push_digit(s: &mut String, d: u64)
    requires
        d < 10,
    ensures
        final(s)@ == old(s)@.push(digit_char(d as int)),
{
    let ghost start = s@;
    if d == 0 {
        proof { reveal_strlit("0"); }
        s.append("0");
    } else if d == 1 {
        proof { reveal_strlit("1"); }
        s.append("1");
    } else if d == 2 {
        proof { reveal_strlit("2"); }
        s.append("2");
    } else if d == 3 {
        proof { reveal_strlit("3"); }
        s.append("3");
    } else if d == 4 {
        proof { reveal_strlit("4"); }
        s.append("4");
    } else if d == 5 {
        proof { reveal_strlit("5"); }
        s.append("5");
    } else if d == 6 {
        proof { reveal_strlit("6"); }
        s.append("6");
    } else if d == 7 {
        proof { reveal_strlit("7"); }
        s.append("7");
    } else if d == 8 {
        proof { reveal_strlit("8"); }
        s.append("8");
    } else {
        proof { reveal_strlit("9"); }
        s.append("9");
    }
    assert(s@ =~= start.push(digit_char(d as int)));
}

/// Appends the decimal rendering of `n` to `s`.
pub fn append_decimal(s: &mut String, n: u64)
    ensures
        final(s)@ == old(s)@ + decimal(n as nat),
    decreases n,
{
    let ghost start = s@;
    if n >= 10 {
        append_decimal(s, n / 10);
    }
    push_digit(s, n % 10);
    proof {
        if n >= 10 {
            assert(start + decimal(n as nat) =~= (start + decimal((n / 10) as nat)).push(
                digit_char((n % 10) as int),
            ));
        } else {
            assert(start + decimal(n as nat) =~= start.push(digit_char((n % 10) as int)));
        }
    }
}

/// Appends the decimal rendering of the signed `v` to `s`.
pub fn append_signed_decimal(s: &mut String, v: i64)
    ensures
        final(s)@ == old(s)@ + signed_decimal(v as int),
{
    let ghost start = s@;
    if v < 0 {
        proof { reveal_strlit("-"); }
        s.append("-");
        let magnitude: u64 = ((-(v + 1)) as u64) + 1;
        append_decimal(s, magnitude);
        assert(s@ =~= start + signed_decimal(v as int));
    } else {
        append_decimal(s, v as u64);
    }
}

/// Decimal rendering of `n`, as `n.to_string()` gives it.
pub fn u64_text(n: u64) -> (s: String)
    ensures
        s@ == decimal(n as nat),
{
    let mut s = String::new();
    append_decimal(&mut s, n);
    assert(s@ =~= decimal(n as nat));
    s
}

/// Decimal rendering of the signed `v`, as `v.to_string()` gives it.
pub fn i64_text(v: i64) -> (s: String)
    ensures
        s@ == signed_decimal(v as int),
{
    let mut s = String::new();
    append_signed_decimal(&mut s, v);
    assert(s@ =~= signed_decimal(v as int));
    s
}

proof fn lemma_digits_value_step(s: Seq<char>, c: char)
    ensures
        digits_value(s.push(c)) == digits_value(s) * 10 + digit_value(c),
{
    assert(s.push(c).drop_last() =~= s);
}

/// Parses `s` as a `u32` the way `s.parse::<u32>()` does.
pub fn parse_u32(s: &str) -> (r: Option<u32>)
    ensures
        r == decimal_u32_value(s@),
{
    let len = s.unicode_len();
    let mut start: usize = 0;
    if len > 0 && s.get_char(0) == '+' {
        start = 1;
    }
    let ghost d = unsigned_digits(s@);
    assert(d =~= s@.subrange(start as int, len as int));
    if start >= len {
        return None;
    }
    let mut value: u64 = 0;
    let mut i: usize = start;
    while i < len
        invariant
            start <= i <= len,
            len == s@.len(),
            d =~= s@.subrange(start as int, len as int),
            d == unsigned_digits(s@),
            all_digits(s@.subrange(start as int, i as int)),
            value == digits_value(s@.subrange(start as int, i as int)),
            value <= u32::MAX,
        decreases len - i,
    {
        let c = s.get_char(i);
        let ghost prefix = s@.subrange(start as int, i as int);
        assert(s@.subrange(start as int, i + 1) =~= prefix.push(c));
        proof {
            lemma_digits_value_step(prefix, c);
        }
        if !('0' <= c && c <= '9') {
            assert(!is_digit(d[i - start]));
            return None;
        }
        let digit: u64 = (c as u32 - 48) as u64;
        let next = value * 10 + digit;
        if next > 0xFFFF_FFFF {
            proof {
                // Every further digit keeps the value at least as large.
                assert(d.take((i + 1 - start) as int) =~= prefix.push(c));
                assert(all_digits(prefix.push(c))) by {
                    assert forall|j: int| 0 <= j < prefix.len() + 1 implies is_digit(
                        #[trigger] prefix.push(c)[j],
                    ) by {
                        if j < prefix.len() {
                            assert(prefix.push(c)[j] == prefix[j]);
                        }
                    }
                }
                lemma_prefix_value_bound(d, (i + 1 - start) as int);
            }
            return None;
        }
        value = next;
        i = i + 1;
        assert(all_digits(s@.subrange(start as int, i as int))) by {
            assert forall|j: int| 0 <= j < i - start implies is_digit(
                #[trigger] s@.subrange(start as int, i as int)[j],
            ) by {
                if j < i - 1 - start {
                    assert(s@.subrange(start as int, i as int)[j] == prefix[j]);
                }
            }
        }
    }
    assert(s@.subrange(start as int, i as int) =~= d);
    Some(value as u32)
}

/// A string of digits is worth at least as much as any of its prefixes, so
/// once a prefix exceeds the 32-bit range the whole does too (or is not all
/// digits).
proof fn lemma_prefix_value_bound(s: Seq<char>, k: int)
    requires
        0 <= k <= s.len(),
        all_digits(s.take(k)),
        digits_value(s.take(k)) > u32::MAX,
    ensures
        !(all_digits(s) && digits_value(s) <= u32::MAX),
    decreases s.len() - k,
{
    if k < s.len() && all_digits(s) {
        let p = s.take(k);
        assert(s.take(k + 1) =~= p.push(s[k]));
        lemma_digits_value_step(p, s[k]);
        assert(is_digit(s[k]));
        assert(all_digits(s.take(k + 1))) by {
            assert forall|j: int| 0 <= j < k + 1 implies is_digit(#[trigger] s.take(k + 1)[j]) by {
                assert(s.take(k + 1)[j] == s[j]);
            }
        }
        lemma_prefix_value_bound(s, k + 1);
    } else if k == s.len() {
        assert(s.take(k) =~= s);
    }
}

/// The views of a sequence of strings.
pub open spec fn texts(v: Seq<String>) -> Seq<Seq<char>> {
    v.map_values(|s: String| s@)
}

/// The items joined with `sep` between each two.
pub open spec fn join(items: Seq<Seq<char>>, sep: Seq<char>) -> Seq<char>
    decreases items.len(),
{
    if items.len() == 0 {
        Seq::empty()
    } else if items.len() == 1 {
        items[0]
    } else {
        join(items.drop_last(), sep) + sep + items.last()
    }
}

/// The strings joined with `sep` between each two, as `join` on a slice of
/// strings gives it.
pub fn join_texts(items: &Vec<String>, sep: &str) -> (s: String)
    ensures
        s@ == join(texts(items@), sep@),
{
    let mut s = String::new();
    let mut i: usize = 0;
    while i < items.len()
        invariant
            i <= items@.len(),
            s@ == join(texts(items@.take(i as int)), sep@),
        decreases items@.len() - i,
    {
        let ghost before = texts(items@.take(i as int));
        assert(texts(items@.take(i + 1)) =~= before.push(items@[i as int]@));
        assert(texts(items@.take(i + 1)).drop_last() =~= before);
        if i > 0 {
            s.append(sep);
        } else {
            assert(s@ =~= Seq::<char>::empty());
        }
        s.append(items[i].as_str());
        i = i + 1;
    }
    assert(items@.take(i as int) =~= items@);
    s
}

/// `String::from_utf8_lossy` on `bytes`, as an owned string.
#[verifier::external_body]
fn utf8_lossy(bytes: &[u8]) -> (s: String)
    ensures
        s@ == utf8_lossy_text(bytes@),
        valid_utf8(bytes@) ==> s@ == decode_utf8(bytes@),
{
    String::from_utf8_lossy(bytes).into_owned()
}

/// `std::str::from_utf8` on `bytes`, as an owned string: the text that
/// the bytes encode when they are valid UTF-8, and nothing otherwise.
#[verifier::external_body]
pub(crate) fn utf8_text(bytes: &[u8]) -> (r: Option<String>)
    ensures
        r is Some <==> valid_utf8(bytes@),
        r matches Some(s) ==> s@ == decode_utf8(bytes@),
{
    match std::str::from_utf8(bytes) {
        Ok(s) => Some(s.to_string()),
        Err(_) => None,
    }
}

/// The label of a NUL-terminated name field, as the kernel fills it.
pub fn c_label(bytes: &[u8; 32]) -> (s: String)
    ensures
        s@ == c_label_text(bytes@),
{
    let mut i: usize = 0;
    while i < 32
        invariant
            i <= 32,
            bytes@.len() == 32,
            forall|j: int| 0 <= j < i ==> bytes@[j] != 0,
        decreases 32 - i,
    {
        if bytes[i] == 0 {
            let ghost k = choose|k: int|
                0 <= k < bytes@.len() && bytes@[k] == 0 && forall|j: int| 0 <= j < k ==> bytes@[j] != 0;
            assert(k == i as int) by {
                if k < i {
                } else if k > i {
                    assert(bytes@[i as int] != 0);
                }
            }
            let mut prefix: Vec<u8> = Vec::new();
            let mut j: usize = 0;
            while j < i
                invariant
                    j <= i < 32,
                    bytes@.len() == 32,
                    prefix@ =~= bytes@.take(j as int),
                decreases i - j,
            {
                prefix.push(bytes[j]);
                j = j + 1;
                assert(prefix@ =~= bytes@.take(j as int));
            }
            return utf8_lossy(prefix.as_slice());
        }
        i = i + 1;
    }
    proof { reveal_strlit("Unknown"); }
    let s = String::from_str("Unknown");
    assert(s@ =~= seq!['U', 'n', 'k', 'n', 'o', 'w', 'n']);
    s
}

} // verus!
