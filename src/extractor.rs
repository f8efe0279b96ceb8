use vstd::prelude::*;
use vstd::arithmetic::div_mod::lemma_div_denominator;
use vstd::utf8::{decode_utf8, encode_utf8, valid_utf8};

verus! {

/// A JSON number as the parser splits it: `integer.fraction`, where the
/// fraction was written with `fraction_length` digits.
#[derive(PartialEq, Eq, Structural, Clone, Copy, Debug)]
pub struct JsonNumber {
    pub integer: i64,
    pub fraction: u64,
    pub fraction_length: u32,
}

/// The value of one member of a JSON object, as far as prices care.
#[derive(PartialEq, Eq, Structural, Clone, Copy, Debug)]
pub enum JsonField {
    Number(JsonNumber),
    Other,
}

/// Why a price could not be fetched.
#[derive(PartialEq, Eq, Structural, Clone, Copy, Debug)]
pub enum HttpError {
    DeadlineReached,
    IoError,
    Unknown,
}

/// The members of the top-level JSON object written in `text`, in the order in
/// which the parser lists them; `None` when `text` is not a JSON object.
pub uninterp spec fn json_object_fields(text: Seq<char>) -> Option<Seq<(Seq<char>, JsonField)>>;

pub open spec fn is_digit(c: u8) -> bool {
    48 <= c <= 57
}

pub open spec fn all_digits(b: Seq<u8>, i: int, j: int) -> bool {
    forall|k: int| i <= k < j ==> is_digit(#[trigger] b[k])
}

/// Whether position `i` follows an exponent marker: `e`, `E`, or one of
/// them and a sign.
pub open spec fn after_exponent_marker(b: Seq<u8>, i: int) -> bool {
    ||| (i >= 1 && (b[i - 1] == 101u8 || b[i - 1] == 69u8))
    ||| (i >= 2 && (b[i - 1] == 43u8 || b[i - 1] == 45u8) && (b[i - 2] == 101u8 || b[i - 2] == 69u8))
}

/// The most digits a run may hold from position `i`: 9 in an exponent, 18 elsewhere.
pub open spec fn digit_limit(b: Seq<u8>, i: int) -> int {
    if after_exponent_marker(b, i) {
        9
    } else {
        18
    }
}

/// Whether every run of ASCII digits in `b` is short enough for the parser's
/// fixed-width accumulators (`u64` for integer and fraction digits, `i32`
/// for exponent digits).
pub open spec fn numerals_fit(b: Seq<u8>) -> bool {
    forall|i: int, j: int|
        0 <= i <= j < b.len() && #[trigger] all_digits(b, i, j + 1) ==> j - i < digit_limit(b, i)
}

pub open spec fn fields_view(v: Seq<(Vec<char>, JsonField)>) -> Seq<(Seq<char>, JsonField)> {
    v.map_values(|p: (Vec<char>, JsonField)| (p.0@, p.1))
}

/// Relies on `lite_json::parse_json`: parses `text` and, when it is an object,
/// lists its members with each value reduced to a number or something else.
/// Its digit accumulators overflow on long numerals, which `requires` rules out.
#[verifier::external_body]
fn parse_object(text: &str) -> (r: Option<Vec<(Vec<char>, JsonField)>>)
    requires
        numerals_fit(encode_utf8(text@)),
    ensures
        r is None <==> json_object_fields(text@) is None,
        r matches Some(v) ==> json_object_fields(text@) == Some(fields_view(v@)),
{
    match lite_json::parse_json(text) {
        Ok(lite_json::JsonValue::Object(obj)) => Some(obj.into_iter().map(|(k, v)| match v {
            lite_json::JsonValue::Number(n) => (k, JsonField::Number(JsonNumber {
                integer: n.integer,
                fraction: n.fraction,
                fraction_length: n.fraction_length,
            })),
            _ => (k, JsonField::Other),
        }).collect()),
        _ => None,
    }
}

/// Relies on `core::str::from_utf8`: the text that `bytes` encode, exactly
/// when they are valid UTF-8.
#[verifier::external_body]
fn text_of(bytes: &[u8]) -> (r: Option<&str>)
    ensures
        r is Some <==> valid_utf8(bytes@),
        r matches Some(t) ==> t@ == decode_utf8(bytes@),
{
    core::str::from_utf8(bytes).ok()
}

/// The currency code that prices are read under.
pub open spec fn usd_key() -> Seq<char> {
    seq!['U', 'S', 'D']
}

pub open spec fn pow10(e: nat) -> nat
    decreases e,
{
    if e == 0 {
        1
    } else {
        10 * pow10((e - 1) as nat)
    }
}

/// The value of the first member named `key`.
pub open spec fn first_with_key(f: Seq<(Seq<char>, JsonField)>, key: Seq<char>) -> Option<JsonField>
    decreases f.len(),
{
    if f.len() == 0 {
        None
    } else if f[0].0 == key {
        Some(f[0].1)
    } else {
        first_with_key(f.drop_first(), key)
    }
}

/// How many digits of the fraction are dropped to leave cents: `max(len - 2, 0)`.
pub open spec fn dropped_digits(n: JsonNumber) -> nat {
    if n.fraction_length >= 2 {
        (n.fraction_length - 2) as nat
    } else {
        0
    }
}

/// The number in cents, the fraction truncated to two digits.
pub open spec fn cents_of(n: JsonNumber) -> int {
    n.integer * 100 + n.fraction as int / pow10(dropped_digits(n)) as int
}

/// The price in cents held by a number: `None` when it is negative or exceeds `u32`.
pub open spec fn price_of_number(n: JsonNumber) -> Option<u32> {
    if 0 <= n.integer && cents_of(n) <= u32::MAX {
        Some(cents_of(n) as u32)
    } else {
        None
    }
}

/// The price under the first `USD` member, when that member is a number.
pub open spec fn price_in_fields(f: Seq<(Seq<char>, JsonField)>) -> Option<u32> {
    match first_with_key(f, usd_key()) {
        Some(JsonField::Number(n)) => price_of_number(n),
        _ => None,
    }
}

/// The price in a JSON text.
pub open spec fn price_in_text(t: Seq<char>) -> Option<u32> {
    match json_object_fields(t) {
        Some(f) => price_in_fields(f),
        None => None,
    }
}

/// The price in a text whose numerals all fit.
pub open spec fn price_in_str(t: Seq<char>) -> Option<u32> {
    if numerals_fit(encode_utf8(t)) {
        price_in_text(t)
    } else {
        None
    }
}

/// The price in a response body.
pub open spec fn price_in_body(b: Seq<u8>) -> Option<u32> {
    if valid_utf8(b) {
        price_in_str(decode_utf8(b))
    } else {
        None
    }
}

proof fn lemma_pow10_add(a: nat, b: nat)
    ensures
        pow10(a + b) == pow10(a) * pow10(b),
        pow10(a) > 0,
    decreases a,
{
    if a == 0 {
        assert(pow10(0) == 1);
        assert(a + b == b);
    } else {
        lemma_pow10_add((a - 1) as nat, b);
        assert(pow10(a) == 10 * pow10((a - 1) as nat));
        assert((a - 1 + b) as nat == (a + b - 1) as nat);
        assert(pow10(a + b) == 10 * pow10((a - 1 + b) as nat));
        assert(10 * (pow10((a - 1) as nat) * pow10(b)) == (10 * pow10((a - 1) as nat)) * pow10(b))
            by (nonlinear_arith);
    }
}

/// When the first `USD` member of an object is a non-negative number that fits,
/// the price is its integer part in cents plus its fraction cut to two digits;
/// a fraction of fewer than two digits is taken whole, with nothing divided away.
pub proof fn lemma_price_of_usd_member(f: Seq<(Seq<char>, JsonField)>, n: JsonNumber)
    requires
        first_with_key(f, usd_key()) == Some(JsonField::Number(n)),
        0 <= n.integer,
        cents_of(n) <= u32::MAX,
    ensures
        price_in_fields(f) is Some,
        price_in_fields(f).unwrap() == n.integer * 100 + n.fraction as int / pow10(dropped_digits(n)) as int,
        n.fraction_length <= 2 ==> price_in_fields(f).unwrap() == n.integer * 100 + n.fraction,
        n.fraction_length == 3 ==> price_in_fields(f).unwrap() == n.integer * 100 + n.fraction / 10,
{
    let d = pow10(dropped_digits(n)) as int;
    lemma_pow10_add(dropped_digits(n), 0);
    assert(n.fraction as int / d >= 0) by (nonlinear_arith)
        requires d > 0;
    assert(0 <= cents_of(n));
    if n.fraction_length <= 2 {
        assert(dropped_digits(n) == 0);
        assert(pow10(0) == 1);
        assert(n.fraction as int / 1 == n.fraction);
    }
    if n.fraction_length == 3 {
        assert(dropped_digits(n) == 1);
        assert(pow10(1) == 10 * pow10(0));
        assert(pow10(0) == 1);
    }
}

/// `x / 10^e`.
fn div_pow10(x: u64, e: u32) -> (r: u64)
    ensures
        r == x as int / pow10(e as nat) as int,
{
    let mut q: u64 = x;
    let mut i: u32 = 0;
    assert(pow10(0) == 1);
    while i < e && q > 0
        invariant
            i <= e,
            q == x as int / pow10(i as nat) as int,
        decreases e - i,
    {
        proof {
            lemma_pow10_add(i as nat, 1);
            lemma_pow10_add(0, 0);
            assert(pow10(1) == 10) by {
                assert(pow10(1) == 10 * pow10(0));
            }
            lemma_div_denominator(x as int, pow10(i as nat) as int, 10);
        }
        q = q / 10;
        i = i + 1;
    }
    proof {
        if i < e {
            lemma_pow10_add(i as nat, (e - i) as nat);
            lemma_pow10_add((e - i) as nat, 0);
            lemma_div_denominator(x as int, pow10(i as nat) as int, pow10((e - i) as nat) as int);
        }
    }
    q
}

/// Whether a member name is the currency code `USD`.
fn is_usd(k: &Vec<char>) -> (r: bool)
    ensures
        r == (k@ == usd_key()),
{
    let r = k.len() == 3 && k[0] == 'U' && k[1] == 'S' && k[2] == 'D';
    proof {
        if k@.len() == 3 {
            if r {
                assert(k@ =~= usd_key());
            }
        }
    }
    r
}

/// The price in cents that a number gives, if it is not negative and fits.
pub fn number_to_cents(n: &JsonNumber) -> (r: Option<u32>)
    ensures
        r == price_of_number(*n),
{
    if n.integer < 0 {
        return None;
    }
    let exp: u32 = if n.fraction_length >= 2 { n.fraction_length - 2 } else { 0 };
    let frac = div_pow10(n.fraction, exp);
    let total: i128 = n.integer as i128 * 100 + frac as i128;
    if total <= u32::MAX as i128 {
        Some(total as u32)
    } else {
        None
    }
}

/// The price under the first `USD` member of a parsed object, if that member is a number.
pub fn price_from_fields(fields: &Vec<(Vec<char>, JsonField)>) -> (r: Option<u32>)
    ensures
        r == price_in_fields(fields_view(fields@)),
{
    let ghost all = fields_view(fields@);
    let mut i: usize = 0;
    assert(all.subrange(0, all.len() as int) =~= all);
    while i < fields.len()
        invariant
            i <= fields@.len(),
            all == fields_view(fields@),
            first_with_key(all, usd_key()) == first_with_key(all.subrange(i as int, all.len() as int), usd_key()),
        decreases fields@.len() - i,
    {
        let ghost rest = all.subrange(i as int, all.len() as int);
        assert(rest.drop_first() =~= all.subrange(i as int + 1, all.len() as int));
        if is_usd(&fields[i].0) {
            return match fields[i].1 {
                JsonField::Number(n) => number_to_cents(&n),
                JsonField::Other => None,
            };
        }
        i = i + 1;
    }
    None
}

/// Whether every digit run in `b` fits its limit.
pub fn check_numerals(b: &[u8]) -> (r: bool)
    ensures
        r == numerals_fit(b@),
{
    let n = b.len();
    let mut run: usize = 0;
    let mut limit: usize = 18;
    let mut k: usize = 0;
    while k < n
        invariant
            n == b@.len(),
            k <= n,
            run <= k,
            all_digits(b@, k - run, k as int),
            run > 0 ==> (k - run == 0 || !is_digit(b@[k - run - 1])),
            run == 0 ==> (k == 0 || !is_digit(b@[k - 1])),
            run > 0 ==> limit == digit_limit(b@, k - run),
            run <= limit <= 18,
            forall|i: int, j: int|
                0 <= i <= j < k && #[trigger] all_digits(b@, i, j + 1) ==> j - i < digit_limit(b@, i),
        decreases n - k,
    {
        let c = b[k];
        if 48 <= c && c <= 57 {
            if run == 0 {
                let exp = (k >= 1 && (b[k - 1] == 101 || b[k - 1] == 69)) || (k >= 2 && (b[k - 1] == 43
                    || b[k - 1] == 45) && (b[k - 2] == 101 || b[k - 2] == 69));
                limit = if exp { 9 } else { 18 };
            }
            run = run + 1;
            let ghost start = k - run + 1;
            assert(all_digits(b@, start, k + 1));
            if run > limit {
                assert(all_digits(b@, start, (k as int) + 1) && (k as int) - start >= digit_limit(b@, start));
                return false;
            }
            assert forall|i: int, j: int|
                0 <= i <= j < k + 1 && #[trigger] all_digits(b@, i, j + 1) implies j - i < digit_limit(b@, i) by {
                if j == k {
                    if i < start {
                        assert(is_digit(b@[start - 1]));
                    } else if i > start {
                        assert(is_digit(b@[i - 1]));
                        assert(!after_exponent_marker(b@, i));
                    }
                }
            }
        } else {
            assert forall|i: int, j: int|
                0 <= i <= j < k + 1 && #[trigger] all_digits(b@, i, j + 1) implies j - i < digit_limit(b@, i) by {
                if j == k {
                    assert(is_digit(b@[k as int]));
                }
            }
            run = 0;
        }
        k = k + 1;
    }
    true
}

/// Reads the price in cents from a JSON text: the first member named `USD` of
/// the top-level object, its fraction truncated to two digits. `None` when the
/// text is not an object, has no such member, or its value is not a number
/// that fits; and when a run of digits is too long to parse.
pub fn parse_price(price_str: &str) -> (r: Option<u32>)
    ensures
        r == price_in_str(price_str@),
{
    if !check_numerals(price_str.as_bytes()) {
        return None;
    }
    match parse_object(price_str) {
        Some(fields) => price_from_fields(&fields),
        None => None,
    }
}

/// Reads the price in cents from a response body; `None` on bytes that are not UTF-8.
pub fn extract(body: &[u8]) -> (r: Option<u32>)
    ensures
        r == price_in_body(body@),
{
    match text_of(body) {
        Some(text) => parse_price(text),
        None => None,
    }
}

/// The price from an HTTP response: only a status of 200 with a body that
/// holds a price gives one.
pub fn price_from_response(code: u16, body: &[u8]) -> (r: Result<u32, HttpError>)
    ensures
        code != 200 ==> r == Err::<u32, HttpError>(HttpError::Unknown),
        code == 200 ==> r == match price_in_body(body@) {
            Some(p) => Ok::<u32, HttpError>(p),
            None => Err(HttpError::Unknown),
        },
{
    if code != 200 {
        return Err(HttpError::Unknown);
    }
    match extract(body) {
        Some(p) => Ok(p),
        None => Err(HttpError::Unknown),
    }
}

} // verus!
