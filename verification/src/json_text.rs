use vstd::prelude::*;

verus! {

/// The character of a decimal digit `d` (`d < 10`).
pub open spec fn digit_char(d: nat) -> char {
    (48 + d) as char
}

pub open spec fn is_digit(c: char) -> bool {
    '0' <= c && c <= '9'
}

/// The value of a decimal digit character.
pub open spec fn digit_value(c: char) -> nat {
    (c as int - 48) as nat
}

/// The decimal digits of `n`, most significant first, with no leading zero.
pub open spec fn decimal(n: nat) -> Seq<char>
    decreases n,
{
    if n < 10 {
        seq![digit_char(n)]
    } else {
        decimal(n / 10).push(digit_char(n % 10))
    }
}

/// The whitespace that JSON allows around a value.
pub open spec fn is_json_ws(c: char) -> bool {
    c == ' ' || c == '\n' || c == '\t' || c == '\r'
}

pub open spec fn strip_leading_ws(s: Seq<char>) -> Seq<char>
    decreases s.len(),
{
    if s.len() > 0 && is_json_ws(s[0]) {
        strip_leading_ws(s.drop_first())
    } else {
        s
    }
}

pub open spec fn strip_trailing_ws(s: Seq<char>) -> Seq<char>
    decreases s.len(),
{
    if s.len() > 0 && is_json_ws(s.last()) {
        strip_trailing_ws(s.drop_last())
    } else {
        s
    }
}

/// A non-empty run of digits without a superfluous leading zero.
pub open spec fn is_canonical_decimal(t: Seq<char>) -> bool {
    &&& t.len() > 0
    &&& forall|i: int| 0 <= i < t.len() ==> is_digit(#[trigger] t[i])
    &&& (t.len() == 1 || t[0] != '0')
}

/// The number that a run of digits denotes.
pub open spec fn digits_value(t: Seq<char>) -> nat
    decreases t.len(),
{
    if t.len() == 0 {
        0
    } else {
        digits_value(t.drop_last()) * 10 + digit_value(t.last())
    }
}

/// What JSON text `s` denotes as a `usize`: a canonical decimal, possibly
/// surrounded by JSON whitespace, whose value fits in a `usize`.
pub open spec fn json_usize_value(s: Seq<char>) -> Option<usize> {
    let t = strip_trailing_ws(strip_leading_ws(s));
    if is_canonical_decimal(t) && digits_value(t) <= usize::MAX {
        Some(digits_value(t) as usize)
    } else {
        None
    }
}


/// Each digit character is a digit, and reads back as the digit it was made from.
pub proof fn lemma_digit_char(d: nat)
    requires
        d < 10,
    ensures
        is_digit(digit_char(d)),
        digit_value(digit_char(d)) == d,
        !is_json_ws(digit_char(d)),
        digit_char(d) != ',',
        d != 0 ==> digit_char(d) != '0',
{
}

/// The decimal text of `n` is a canonical run of digits that denotes `n`.
pub proof fn lemma_decimal(n: nat)
    ensures
        is_canonical_decimal(decimal(n)),
        digits_value(decimal(n)) == n,
        decimal(n).len() >= 1,
        n != 0 ==> decimal(n)[0] != '0',
    decreases n,
{
    lemma_digit_char(n % 10);
    if n >= 10 {
        lemma_decimal(n / 10);
        let s = decimal(n / 10);
        let t = s.push(digit_char(n % 10));
        assert(t.drop_last() =~= s);
        assert(t[0] == s[0]);
        assert(digits_value(t) == digits_value(s) * 10 + digit_value(t.last()));
        assert((n / 10) * 10 + n % 10 == n);
        assert forall|i: int| 0 <= i < t.len() implies is_digit(#[trigger] t[i]) by {
            if i < s.len() {
                assert(t[i] == s[i]);
            }
        }
    } else {
        let t = decimal(n);
        assert(t.drop_last() =~= Seq::<char>::empty());
        assert(digits_value(t.drop_last()) == 0);
    }
}


/// Stripping leading whitespace drops a prefix made of whitespace only.
pub proof fn lemma_strip_leading_ws(s: Seq<char>) -> (k: int)
    ensures
        0 <= k <= s.len(),
        strip_leading_ws(s) == s.skip(k),
        forall|i: int| 0 <= i < k ==> is_json_ws(#[trigger] s[i]),
        k < s.len() ==> !is_json_ws(s[k]),
    decreases s.len(),
{
    if s.len() > 0 && is_json_ws(s[0]) {
        let k0 = lemma_strip_leading_ws(s.drop_first());
        assert(s.drop_first().skip(k0) =~= s.skip(k0 + 1));
        assert forall|i: int| 0 <= i < k0 + 1 implies is_json_ws(#[trigger] s[i]) by {
            if i > 0 {
                assert(s[i] == s.drop_first()[i - 1]);
            }
        }
        if k0 + 1 < s.len() {
            assert(s[k0 + 1] == s.drop_first()[k0]);
        }
        k0 + 1
    } else {
        assert(s.skip(0) =~= s);
        0
    }
}

/// Stripping trailing whitespace drops a suffix made of whitespace only.
pub proof fn lemma_strip_trailing_ws(s: Seq<char>) -> (k: int)
    ensures
        0 <= k <= s.len(),
        strip_trailing_ws(s) == s.take(k),
        forall|i: int| k <= i < s.len() ==> is_json_ws(#[trigger] s[i]),
        k > 0 ==> !is_json_ws(s[k - 1]),
    decreases s.len(),
{
    if s.len() > 0 && is_json_ws(s.last()) {
        let k0 = lemma_strip_trailing_ws(s.drop_last());
        assert(s.drop_last().take(k0) =~= s.take(k0));
        assert forall|i: int| k0 <= i < s.len() implies is_json_ws(#[trigger] s[i]) by {
            if i < s.len() - 1 {
                assert(s[i] == s.drop_last()[i]);
            }
        }
        if k0 > 0 {
            assert(s[k0 - 1] == s.drop_last()[k0 - 1]);
        }
        k0
    } else {
        assert(s.take(s.len() as int) =~= s);
        s.len() as int
    }
}

/// serde_json reads back the decimal text of every `usize` as that `usize`.
pub proof fn lemma_json_usize_of_decimal(n: usize)
    ensures
        json_usize_value(decimal(n as nat)) == Some(n),
{
    let d = decimal(n as nat);
    lemma_decimal(n as nat);
    lemma_digit_char(0);
    assert(!is_json_ws(d[0]));
    assert(!is_json_ws(d.last()));
    assert(strip_leading_ws(d) == d);
    assert(strip_trailing_ws(d) == d);
}

/// Text that serde_json reads as a `usize` holds no comma.
pub proof fn lemma_json_usize_no_comma(u: Seq<char>)
    requires
        json_usize_value(u) is Some,
    ensures
        forall|i: int| 0 <= i < u.len() ==> #[trigger] u[i] != ',',
{
    let k1 = lemma_strip_leading_ws(u);
    let v = u.skip(k1);
    let k2 = lemma_strip_trailing_ws(v);
    let t = v.take(k2);
    assert forall|i: int| 0 <= i < u.len() implies #[trigger] u[i] != ',' by {
        if k1 <= i && i < k1 + k2 {
            assert(t[i - k1] == u[i]);
            assert(is_digit(t[i - k1]));
        } else if i >= k1 + k2 {
            assert(v[i - k1] == u[i]);
        }
    }
}

#[verifier::external_type_specification]
#[verifier::external_body]
pub struct ExJsonError(serde_json::Error);

/// Calls `serde_json::to_string` on a `usize`. serde_json writes an integer
/// as its decimal digits (through `itoa`) into an in-memory buffer, which
/// cannot fail; the contract claims exactly that.
#[verifier::external_body]
fn serde_json_usize_to_string(n: usize) -> (res: Result<String, serde_json::Error>)
    ensures
        res is Ok,
        res matches Ok(s) ==> s@ == decimal(n as nat),
{
    serde_json::to_string(&n)
}

/// Calls `serde_json::from_str::<usize>`. serde_json skips JSON whitespace,
/// reads an integer (refusing a leading zero, a sign, a fraction or an
/// exponent for a `usize`), refuses values above `usize::MAX`, and refuses
/// anything but whitespace after the number; the contract claims that the
/// call succeeds exactly when `json_usize_value` is `Some`, with that value.
#[verifier::external_body]
fn serde_json_usize_from_str(s: &str) -> (res: Result<usize, serde_json::Error>)
    ensures
        res is Ok <==> json_usize_value(s@) is Some,
        res matches Ok(n) ==> json_usize_value(s@) == Some(n),
{
    serde_json::from_str::<usize>(s)
}

/// The JSON text of `n`, as serde_json writes it.
pub fn json_usize_text(n: usize) -> (res: String)
    ensures
        res@ == decimal(n as nat),
{
    match serde_json_usize_to_string(n) {
        Ok(s) => s,
        Err(_) => {
            proof {
                assert(false);
            }
            String::new()
        },
    }
}

/// The `usize` that JSON text `s` denotes, as serde_json reads it, or `None`
/// where serde_json refuses it.
pub fn json_usize_parse(s: &str) -> (res: Option<usize>)
    ensures
        res == json_usize_value(s@),
{
    match serde_json_usize_from_str(s) {
        Ok(n) => Some(n),
        Err(_) => None,
    }
}

} // verus!
