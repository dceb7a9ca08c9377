//! Price normalisation: from the raw text found on a page to an exact `Price`.
use vstd::prelude::*;
use vstd::string::*;
use crate::price::{Price, MAX_MANTISSA, MAX_SCALE};

verus! {

/// Why a price could not be read from the text found on a page.
#[derive(Clone, Copy, Debug, PartialEq, Eq, Structural)]
pub enum PriceError {
    /// The matched text is not an optional `+`, digits, a point and at least one digit.
    Malformed,
    /// The value has more digits than a `Price` holds.
    OutOfRange,
}

pub open spec fn is_digit(c: char) -> bool {
    '0' <= c && c <= '9'
}

pub open spec fn digit_value(c: char) -> nat {
    (c as int - '0' as int) as nat
}

pub open spec fn all_digits(s: Seq<char>) -> bool {
    forall|i: int| 0 <= i < s.len() ==> is_digit(#[trigger] s[i])
}

/// The number written by a sequence of decimal digits.
pub open spec fn digits_value(s: Seq<char>) -> nat
    decreases s.len(),
{
    if s.len() == 0 {
        0
    } else {
        10 * digits_value(s.drop_last()) + digit_value(s.last())
    }
}

/// `s` with every thousands separator (`,`) taken out.
pub open spec fn without_commas(s: Seq<char>) -> Seq<char>
    decreases s.len(),
{
    if s.len() == 0 {
        s
    } else if s.last() == ',' {
        without_commas(s.drop_last())
    } else {
        without_commas(s.drop_last()).push(s.last())
    }
}

/// `c` without its leading `+`, if it has one.
pub open spec fn unsigned_part(c: Seq<char>) -> Seq<char> {
    if c.len() > 0 && c[0] == '+' {
        c.drop_first()
    } else {
        c
    }
}

/// In `b`, position `p` holds the decimal point and only digits come before it.
pub open spec fn dot_at(b: Seq<char>, p: int) -> bool {
    0 <= p < b.len() && b[p] == '.' && all_digits(b.subrange(0, p))
}

/// `c` is an optional `+`, then digits, a point, and one or more digits.
pub open spec fn is_decimal_text(c: Seq<char>) -> bool {
    let b = unsigned_part(c);
    exists|p: int| #[trigger] dot_at(b, p) && p + 1 < b.len() && all_digits(b.subrange(p + 1, b.len() as int))
}

/// Where the decimal point of `c` stands, within `unsigned_part(c)`.
pub open spec fn decimal_point(c: Seq<char>) -> int {
    choose|p: int| dot_at(unsigned_part(c), p)
}

/// The digits of `c` with its point taken out, read as one integer.
pub open spec fn decimal_mantissa(c: Seq<char>) -> nat {
    let b = unsigned_part(c);
    let p = decimal_point(c);
    digits_value(b.subrange(0, p) + b.subrange(p + 1, b.len() as int))
}

/// The number of digits after the point of `c`.
pub open spec fn decimal_scale(c: Seq<char>) -> nat {
    (unsigned_part(c).len() - decimal_point(c) - 1) as nat
}

/// What reading the matched text `t` as a price gives.
pub open spec fn price_of_text(t: Seq<char>) -> Result<Price, PriceError> {
    let c = without_commas(t);
    if !is_decimal_text(c) {
        Err(PriceError::Malformed)
    } else if decimal_mantissa(c) <= MAX_MANTISSA && decimal_scale(c) <= MAX_SCALE {
        Ok(Price { mantissa: decimal_mantissa(c) as u64, scale: decimal_scale(c) as u32 })
    } else {
        Err(PriceError::OutOfRange)
    }
}

/// What the normaliser gives for the text that the price pattern found, if any:
/// zero when nothing was found.
pub open spec fn price_of_match(found: Option<Seq<char>>) -> Result<Price, PriceError> {
    match found {
        None => Ok(Price { mantissa: 0, scale: 0 }),
        Some(t) => price_of_text(t),
    }
}

proof fn lemma_dot_unique(b: Seq<char>, p: int, q: int)
    requires
        dot_at(b, p),
        dot_at(b, q),
    ensures
        p == q,
{
    if p < q {
        assert(b.subrange(0, q)[p] == b[p]);
    } else if q < p {
        assert(b.subrange(0, p)[q] == b[q]);
    }
}

fn is_digit_exec(c: char) -> (r: bool)
    ensures
        r == is_digit(c),
{
    '0' <= c && c <= '9'
}

/// `t` with its thousands separators removed, as characters.
fn strip_commas(t: &str) -> (r: Vec<char>)
    ensures
        r@ == without_commas(t@),
{
    let n = t.unicode_len();
    let mut r: Vec<char> = Vec::new();
    let mut i: usize = 0;
    while i < n
        invariant
            i <= n,
            n == t@.len(),
            r@ == without_commas(t@.subrange(0, i as int)),
        decreases n - i,
    {
        let c = t.get_char(i);
        assert(t@.subrange(0, i + 1).drop_last() =~= t@.subrange(0, i as int));
        if c != ',' {
            r.push(c);
        }
        i = i + 1;
    }
    assert(t@.subrange(0, n as int) =~= t@);
    r
}

/// Reads the text that the price pattern matched as a price: thousands
/// separators are dropped, and what is left must be an optional `+`, digits,
/// a point and at least one digit.
pub fn parse_price_text(t: &str) -> (r: Result<Price, PriceError>)
    ensures
        r == price_of_text(t@),
        r matches Ok(p) ==> p.wf(),
{
    let c = strip_commas(t);
    let ghost cs = c@;
    let n = c.len();
    let start: usize = if n > 0 && c[0] == '+' { 1 } else { 0 };
    let ghost b = unsigned_part(cs);
    assert(b =~= cs.subrange(start as int, n as int));
    let mut m: u64 = 0;
    let mut over = false;
    let mut i: usize = start;
    while i < n && is_digit_exec(c[i])
        invariant
            start <= i <= n,
            n == cs.len(),
            c@ == cs,
            b == cs.subrange(start as int, n as int),
            all_digits(cs.subrange(start as int, i as int)),
            m <= MAX_MANTISSA,
            !over ==> m == digits_value(cs.subrange(start as int, i as int)),
            over ==> digits_value(cs.subrange(start as int, i as int)) > MAX_MANTISSA,
        decreases n - i,
    {
        let d = c[i];
        let ghost prev = cs.subrange(start as int, i as int);
        let ghost next = cs.subrange(start as int, i + 1);
        assert(next.drop_last() =~= prev);
        assert(all_digits(next)) by {
            assert forall|k: int| 0 <= k < next.len() implies is_digit(#[trigger] next[k]) by {
                if k < prev.len() {
                    assert(next[k] == prev[k]);
                }
            }
        }
        let v: u64 = (d as u32 - '0' as u32) as u64;
        if !over {
            let t2 = m * 10 + v;
            if t2 > MAX_MANTISSA {
                over = true;
            } else {
                m = t2;
            }
        }
        i = i + 1;
    }
    let q: usize = i;
    let ghost qi = (q - start) as int;
    assert(cs.subrange(start as int, q as int) =~= b.subrange(0, qi));
    if q >= n || c[q] != '.' {
        assert(!is_decimal_text(cs)) by {
            if exists|p: int| #[trigger] dot_at(b, p) {
                let p = choose|p: int| #[trigger] dot_at(b, p);
                if p < qi {
                    assert(b.subrange(0, qi)[p] == b[p]);
                } else if p > qi {
                    assert(b.subrange(0, p)[qi] == b[qi]);
                }
            }
        }
        return Err(PriceError::Malformed);
    }
    assert(dot_at(b, qi));
    proof {
        if is_decimal_text(cs) {
            let p = choose|p: int| #[trigger] dot_at(b, p) && p + 1 < b.len() && all_digits(b.subrange(p + 1, b.len() as int));
            lemma_dot_unique(b, p, qi);
        }
        let p2 = decimal_point(cs);
        lemma_dot_unique(b, p2, qi);
    }
    if q + 1 >= n {
        return Err(PriceError::Malformed);
    }
    let mut j: usize = q + 1;
    while j < n
        invariant
            start <= q < j <= n,
            n == cs.len(),
            b == cs.subrange(start as int, n as int),
            qi == q - start,
            b == unsigned_part(cs),
            cs == without_commas(t@),
            dot_at(b, qi),
            c@ == cs,
            all_digits(cs.subrange(q + 1, j as int)),
            m <= MAX_MANTISSA,
            !over ==> m == digits_value(cs.subrange(start as int, q as int) + cs.subrange(q + 1, j as int)),
            over ==> digits_value(cs.subrange(start as int, q as int) + cs.subrange(q + 1, j as int)) > MAX_MANTISSA,
        decreases n - j,
    {
        let d = c[j];
        if !is_digit_exec(d) {
            assert(!is_decimal_text(cs)) by {
                if is_decimal_text(cs) {
                    let p = choose|p: int| #[trigger] dot_at(b, p) && p + 1 < b.len() && all_digits(b.subrange(p + 1, b.len() as int));
                    lemma_dot_unique(b, p, qi);
                    assert(b.subrange(p + 1, b.len() as int)[(j - q - 1) as int] == cs[j as int]);
                }
            }
            return Err(PriceError::Malformed);
        }
        let ghost prev = cs.subrange(start as int, q as int) + cs.subrange(q + 1, j as int);
        let ghost next = cs.subrange(start as int, q as int) + cs.subrange(q + 1, j + 1);
        assert(next.drop_last() =~= prev);
        assert(all_digits(cs.subrange(q + 1, j + 1))) by {
            let f = cs.subrange(q + 1, j + 1);
            assert forall|k: int| 0 <= k < f.len() implies is_digit(#[trigger] f[k]) by {
                if k < f.len() - 1 {
                    assert(f[k] == cs.subrange(q + 1, j as int)[k]);
                }
            }
        }
        let v: u64 = (d as u32 - '0' as u32) as u64;
        if !over {
            let t2 = m * 10 + v;
            if t2 > MAX_MANTISSA {
                over = true;
            } else {
                m = t2;
            }
        }
        j = j + 1;
    }
    assert(b.subrange(qi + 1, b.len() as int) =~= cs.subrange(q + 1, n as int));
    assert(b.subrange(0, qi) + b.subrange(qi + 1, b.len() as int) =~= cs.subrange(start as int, q as int) + cs.subrange(q + 1, n as int));
    assert(is_decimal_text(cs));
    let scale = n - q - 1;
    if over || scale > MAX_SCALE as usize {
        return Err(PriceError::OutOfRange);
    }
    Ok(Price { mantissa: m, scale: scale as u32 })
}

/// Turns what the price pattern found into a price. When nothing was found
/// the price is zero; this is not an error.
pub fn price_from_match(found: Option<&str>) -> (r: Result<Price, PriceError>)
    ensures
        r == price_of_match(
            match found {
                Some(t) => Some(t@),
                None => None,
            },
        ),
        r matches Ok(p) ==> p.wf(),
{
    match found {
        Some(t) => parse_price_text(t),
        None => Ok(Price::zero()),
    }
}

/// In `t`, the point stands at `p`: digits and separators before it, one or
/// more digits after it.
pub open spec fn token_point(t: Seq<char>, p: int) -> bool {
    0 <= p < t.len() && t[p] == '.' && p + 1 < t.len() && all_digits(t.subrange(p + 1, t.len() as int))
        && forall|i: int| 0 <= i < p ==> is_digit(#[trigger] t[i]) || t[i] == ','
}

proof fn lemma_without_commas_concat(a: Seq<char>, b: Seq<char>)
    ensures
        without_commas(a + b) == without_commas(a) + without_commas(b),
    decreases b.len(),
{
    if b.len() == 0 {
        assert(a + b =~= a);
        assert(without_commas(b) =~= Seq::<char>::empty());
        assert(without_commas(a) + without_commas(b) =~= without_commas(a));
    } else {
        lemma_without_commas_concat(a, b.drop_last());
        assert((a + b).drop_last() =~= a + b.drop_last());
        if b.last() != ',' {
            assert(without_commas(a) + without_commas(b.drop_last()).push(b.last()) =~= (
            without_commas(a) + without_commas(b.drop_last())).push(b.last()));
        }
    }
}

proof fn lemma_without_commas_digits(s: Seq<char>)
    requires
        forall|i: int| 0 <= i < s.len() ==> is_digit(#[trigger] s[i]) || s[i] == ',',
    ensures
        all_digits(without_commas(s)),
    decreases s.len(),
{
    if s.len() > 0 {
        let d = s.drop_last();
        assert forall|i: int| 0 <= i < d.len() implies is_digit(#[trigger] d[i]) || d[i] == ',' by {
            assert(d[i] == s[i]);
        }
        lemma_without_commas_digits(d);
        let w = without_commas(d);
        if s.last() != ',' {
            assert forall|i: int| 0 <= i < w.len() + 1 implies is_digit(#[trigger] w.push(s.last())[i]) by {
                if i < w.len() {
                    assert(w.push(s.last())[i] == w[i]);
                }
            }
        }
    }
}

proof fn lemma_without_commas_all_digits(s: Seq<char>)
    requires
        all_digits(s),
    ensures
        without_commas(s) == s,
    decreases s.len(),
{
    if s.len() > 0 {
        let d = s.drop_last();
        assert forall|i: int| 0 <= i < d.len() implies is_digit(#[trigger] d[i]) by {
            assert(d[i] == s[i]);
        }
        lemma_without_commas_all_digits(d);
        assert(is_digit(s[s.len() - 1]));
        assert(d.push(s.last()) =~= s);
    }
}

/// A price token reads as the digits before its point, separators dropped,
/// followed by the digits after it; the price holds that value exactly
/// whenever it fits, and the text is never malformed.
pub proof fn lemma_token_price(t: Seq<char>, p: int)
    requires
        token_point(t, p),
    ensures
        ({
            let c = without_commas(t);
            let whole = without_commas(t.subrange(0, p));
            let frac = t.subrange(p + 1, t.len() as int);
            &&& is_decimal_text(c)
            &&& decimal_mantissa(c) == digits_value(whole + frac)
            &&& decimal_scale(c) == frac.len()
            &&& price_of_text(t) != Err::<Price, PriceError>(PriceError::Malformed)
            &&& (digits_value(whole + frac) <= MAX_MANTISSA && frac.len() <= MAX_SCALE) ==> price_of_text(t) == Ok::<Price, PriceError>(Price { mantissa: digits_value(whole + frac) as u64, scale: frac.len() as u32 })
        }),
{
    let head = t.subrange(0, p);
    let frac = t.subrange(p + 1, t.len() as int);
    let whole = without_commas(head);
    assert forall|i: int| 0 <= i < head.len() implies is_digit(#[trigger] head[i]) || head[i] == ',' by {
        assert(head[i] == t[i]);
    }
    lemma_without_commas_digits(head);
    lemma_without_commas_all_digits(frac);
    assert(t =~= head + (seq!['.'] + frac));
    lemma_without_commas_concat(head, seq!['.'] + frac);
    lemma_without_commas_concat(seq!['.'], frac);
    assert(without_commas(seq!['.']) =~= seq!['.']) by {
        assert(seq!['.'].drop_last() =~= Seq::<char>::empty());
        reveal_with_fuel(without_commas, 2);
    }
    let c = without_commas(t);
    assert(c =~= whole + seq!['.'] + frac);
    let q = whole.len() as int;
    if whole.len() > 0 {
        assert(!(c[0] == '+')) by {
            assert(c[0] == whole[0]);
        }
    }
    assert(unsigned_part(c) == c);
    assert(c.subrange(0, q) =~= whole);
    assert(c.subrange(q + 1, c.len() as int) =~= frac);
    assert(dot_at(c, q));
    let pd = decimal_point(c);
    lemma_dot_unique(c, pd, q);
}

/// Whether the regex crate compiles `pattern`, with its default limits.
pub uninterp spec fn regex_compiles(pattern: Seq<char>) -> bool;

/// The leftmost-first match of `PRICE_PATTERN` in `text`, as the regex
/// crate finds it.
pub uninterp spec fn price_pattern_match(text: Seq<char>) -> Option<Seq<char>>;

/// The view of an optional string.
pub open spec fn opt_view(s: Option<String>) -> Option<Seq<char>> {
    match s {
        Some(v) => Some(v@),
        None => None,
    }
}

#[verifier::external_type_specification]
#[verifier::external_body]
pub struct ExRegex(regex::Regex);

/// Relies on regex::Regex::new: whether a pattern compiles depends on its
/// text alone.
#[verifier::external_body]
fn compile_regex(pattern: &str) -> (r: Option<regex::Regex>)
    ensures
        r is Some == regex_compiles(pattern@),
{
    regex::Regex::new(pattern).ok()
}

/// The pattern of a price in page text: digit groups joined by thousands
/// separators, then a point and at least one digit.
pub const PRICE_PATTERN: &'static str = "\\d+(,\\d+)*\\.\\d+";

/// Finds a price in raw page text and reads it. The pattern is compiled once,
/// when the normaliser is made, and is always `PRICE_PATTERN`.
pub struct PriceNormalizer {
    pattern: regex::Regex,
}

impl PriceNormalizer {
    /// A normaliser for `PRICE_PATTERN`, or nothing if the pattern does not compile.
    pub fn new() -> (r: Option<PriceNormalizer>)
        ensures
            r is Some == regex_compiles(PRICE_PATTERN@),
    {
        match compile_regex(PRICE_PATTERN) {
            Some(re) => Some(PriceNormalizer { pattern: re }),
            None => None,
        }
    }

    /// Relies on regex::Regex::find on the compiled `PRICE_PATTERN` (the only
    /// pattern a normaliser holds): the text of its leftmost-first match.
    #[verifier::external_body]
    fn find_match(&self, text: &str) -> (r: Option<String>)
        ensures
            opt_view(r) == price_pattern_match(text@),
    {
        match self.pattern.find(text) {
            Some(m) => Some(m.as_str().to_string()),
            None => None,
        }
    }

    /// The text of the first price in `raw`, if the pattern finds one.
    pub fn find_price_text(&self, raw: &str) -> (r: Option<String>)
        ensures
            opt_view(r) == price_pattern_match(raw@),
    {
        self.find_match(raw)
    }

    /// Reads the first price in `raw`. Text with no match gives zero, not an
    /// error: a page that shows no price thus reads as free, and so falls
    /// below any positive target. A match that is not a decimal, or too long,
    /// is an error.
    pub fn normalize(&self, raw: &str) -> (r: Result<Price, PriceError>)
        ensures
            r == price_of_match(price_pattern_match(raw@)),
            r matches Ok(p) ==> p.wf(),
    {
        match self.find_match(raw) {
            Some(m) => price_from_match(Some(m.as_str())),
            None => price_from_match(None),
        }
    }
}

} // verus!
