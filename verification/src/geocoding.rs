//! Parsing of textual coordinate input into a `Location`.
//!
//! A coordinate string is two comma-separated decimal numbers, latitude then
//! longitude, each optionally padded with whitespace. Values are read in
//! micro-degrees: fraction digits beyond the sixth are ignored.

use vstd::prelude::*;

use crate::interfaces::Location;

verus! {

/// Why a coordinate string was rejected.
#[derive(Clone, Copy, Debug, PartialEq, Eq, Structural)]
pub enum ParseError {
    /// Not exactly two comma-separated fields, or a field is not a decimal
    /// number.
    InvalidFormat,
    /// The latitude field is outside [-90, 90] degrees.
    LatitudeOutOfRange,
    /// The longitude field is outside [-180, 180] degrees.
    LongitudeOutOfRange,
}

impl ParseError {
    /// A one-line description of the rejection.
    pub fn message(self) -> (r: &'static str)
        ensures
            self == ParseError::InvalidFormat ==> r@ == "Expected format: latitude,longitude"@,
            self == ParseError::LatitudeOutOfRange ==> r@
                == "Latitude must be between -90 and 90 degrees"@,
            self == ParseError::LongitudeOutOfRange ==> r@
                == "Longitude must be between -180 and 180 degrees"@,
    {
        match self {
            ParseError::InvalidFormat => "Expected format: latitude,longitude",
            ParseError::LatitudeOutOfRange => "Latitude must be between -90 and 90 degrees",
            ParseError::LongitudeOutOfRange => "Longitude must be between -180 and 180 degrees",
        }
    }
}

/// Whitespace that padding may consist of.
pub open spec fn is_space(c: char) -> bool {
    c == ' ' || c == '\t' || c == '\n' || c == '\r'
}

/// A decimal digit.
pub open spec fn is_digit(c: char) -> bool {
    48 <= c as u32 <= 57
}

/// The value of a decimal digit.
pub open spec fn digit_val(c: char) -> int {
    c as u32 - 48
}

/// The text with leading whitespace removed.
pub open spec fn trim_front(s: Seq<char>) -> Seq<char>
    decreases s.len(),
{
    if s.len() > 0 && is_space(s[0]) {
        trim_front(s.drop_first())
    } else {
        s
    }
}

/// The text with trailing whitespace removed.
pub open spec fn trim_back(s: Seq<char>) -> Seq<char>
    decreases s.len(),
{
    if s.len() > 0 && is_space(s.last()) {
        trim_back(s.drop_last())
    } else {
        s
    }
}

/// The text with whitespace removed on both sides.
pub open spec fn trimmed(s: Seq<char>) -> Seq<char> {
    trim_back(trim_front(s))
}

/// `i` is the position of the one and only comma of `s`.
pub open spec fn single_comma_at(s: Seq<char>, i: int) -> bool {
    &&& 0 <= i < s.len()
    &&& s[i] == ','
    &&& forall|j: int| #![trigger s[j]] 0 <= j < s.len() && s[j] == ',' ==> j == i
}

/// The text holds exactly one comma.
pub open spec fn has_single_comma(s: Seq<char>) -> bool {
    exists|i: int| #[trigger] single_comma_at(s, i)
}

/// The position of the one comma, where there is exactly one.
pub open spec fn comma_index(s: Seq<char>) -> int {
    choose|i: int| single_comma_at(s, i)
}

/// The number body with one leading sign removed.
pub open spec fn strip_sign(t: Seq<char>) -> Seq<char> {
    if t.len() > 0 && (t[0] == '+' || t[0] == '-') {
        t.drop_first()
    } else {
        t
    }
}

/// The number carries a leading minus sign.
pub open spec fn sign_negative(t: Seq<char>) -> bool {
    t.len() > 0 && t[0] == '-'
}

/// No two distinct positions of the body hold a dot.
pub open spec fn at_most_one_dot(b: Seq<char>) -> bool {
    forall|j: int, k: int|
        #![trigger b[j], b[k]]
        0 <= j < b.len() && 0 <= k < b.len() && b[j] == '.' && b[k] == '.' ==> j == k
}

/// The body holds at least one digit.
pub open spec fn has_digit(b: Seq<char>) -> bool {
    exists|j: int| 0 <= j < b.len() && #[trigger] is_digit(b[j])
}

/// The (already trimmed) text is a plain decimal number: an optional sign,
/// digits with at most one dot among them, and at least one digit.
pub open spec fn is_decimal(t: Seq<char>) -> bool {
    let b = strip_sign(t);
    &&& b.len() > 0
    &&& forall|j: int| #![trigger b[j]] 0 <= j < b.len() ==> (is_digit(b[j]) || b[j] == '.')
    &&& at_most_one_dot(b)
    &&& has_digit(b)
}

/// The position of the dot of the body, or its length if there is none
/// (canonical for bodies with at most one dot).
pub open spec fn dot_index(b: Seq<char>) -> int {
    if exists|i: int| #![trigger b[i]] 0 <= i < b.len() && b[i] == '.' {
        choose|i: int| #![trigger b[i]] 0 <= i < b.len() && b[i] == '.'
    } else {
        b.len() as int
    }
}

/// The value of a digit string read left to right.
pub open spec fn digits_val(s: Seq<char>) -> int
    decreases s.len(),
{
    if s.len() == 0 {
        0
    } else {
        digits_val(s.drop_last()) * 10 + digit_val(s.last())
    }
}

/// Ten to a non-negative power.
pub open spec fn pow10(k: int) -> int
    decreases k,
{
    if k <= 0 {
        1
    } else {
        10 * pow10(k - 1)
    }
}

/// The fraction digits that carry weight: the first six.
pub open spec fn frac_prefix(f: Seq<char>) -> Seq<char> {
    if f.len() > 6 {
        f.subrange(0, 6)
    } else {
        f
    }
}

/// The value in micro-units of the fraction digit string.
pub open spec fn frac_udeg_val(f: Seq<char>) -> int {
    digits_val(frac_prefix(f)) * pow10(6 - frac_prefix(f).len())
}

/// The value of a (trimmed) decimal number in micro-degrees, fraction digits
/// beyond the sixth ignored.
pub open spec fn decimal_udeg(t: Seq<char>) -> int {
    let b = strip_sign(t);
    let d = dot_index(b);
    let ip = digits_val(b.subrange(0, d));
    let fv = if d < b.len() {
        frac_udeg_val(b.subrange(d + 1, b.len() as int))
    } else {
        0
    };
    let mag = ip * 1_000_000 + fv;
    if sign_negative(t) { -mag } else { mag }
}

/// What parsing a coordinate string yields: the two fields read in
/// micro-degrees when the text is well-formed and in range, and otherwise
/// the first error in checking order (field count and shape, then the
/// latitude bound, then the longitude bound).
pub open spec fn spec_parse(s: Seq<char>) -> Result<Location, ParseError> {
    if !has_single_comma(s) {
        Err(ParseError::InvalidFormat)
    } else {
        let lt = trimmed(s.subrange(0, comma_index(s)));
        let ln = trimmed(s.subrange(comma_index(s) + 1, s.len() as int));
        if !is_decimal(lt) {
            Err(ParseError::InvalidFormat)
        } else if !is_decimal(ln) {
            Err(ParseError::InvalidFormat)
        } else {
            let la = decimal_udeg(lt);
            let lo = decimal_udeg(ln);
            if la < -90_000_000 || la > 90_000_000 {
                Err(ParseError::LatitudeOutOfRange)
            } else if lo < -180_000_000 || lo > 180_000_000 {
                Err(ParseError::LongitudeOutOfRange)
            } else {
                Ok(Location { latitude: la as i64, longitude: lo as i64 })
            }
        }
    }
}

proof fn lemma_trim_front_skip(s: Seq<char>, lo: int)
    requires
        0 <= lo <= s.len(),
        forall|j: int| 0 <= j < lo ==> is_space(#[trigger] s[j]),
        lo < s.len() ==> !is_space(s[lo]),
    ensures
        trim_front(s) == s.subrange(lo, s.len() as int),
    decreases lo,
{
    if lo == 0 {
        assert(s.subrange(0, s.len() as int) =~= s);
    } else {
        let t = s.drop_first();
        assert(t =~= s.subrange(1, s.len() as int));
        assert forall|j: int| 0 <= j < lo - 1 implies is_space(#[trigger] t[j]) by {
            assert(t[j] == s[j + 1]);
        }
        assert(lo - 1 < t.len() ==> !is_space(t[lo - 1])) by {
            if lo - 1 < t.len() {
                assert(t[lo - 1] == s[lo]);
            }
        }
        lemma_trim_front_skip(t, lo - 1);
        assert(t.subrange(lo - 1, t.len() as int) =~= s.subrange(lo, s.len() as int));
    }
}

proof fn lemma_trim_back_skip(s: Seq<char>, hi: int)
    requires
        0 <= hi <= s.len(),
        forall|j: int| hi <= j < s.len() ==> is_space(#[trigger] s[j]),
        hi > 0 ==> !is_space(s[hi - 1]),
    ensures
        trim_back(s) == s.subrange(0, hi),
    decreases s.len() - hi,
{
    if hi == s.len() {
        assert(s.subrange(0, s.len() as int) =~= s);
    } else {
        let t = s.drop_last();
        assert(t =~= s.subrange(0, s.len() - 1));
        assert(is_space(s.last()));
        assert forall|j: int| hi <= j < t.len() implies is_space(#[trigger] t[j]) by {
            assert(t[j] == s[j]);
        }
        lemma_trim_back_skip(t, hi);
        assert(t.subrange(0, hi) =~= s.subrange(0, hi));
    }
}

proof fn lemma_digits_val_push(s: Seq<char>, c: char)
    ensures
        digits_val(s.push(c)) == digits_val(s) * 10 + digit_val(c),
{
    let t = s.push(c);
    assert(t.len() == s.len() + 1);
    assert(t.drop_last() =~= s);
    assert(t.last() == c);
}

fn is_space_char(c: char) -> (r: bool)
    ensures
        r == is_space(c),
{
    c == ' ' || c == '\t' || c == '\n' || c == '\r'
}

/// Reads one trimmed field of `chars[start..end]` as micro-degrees.
///
/// `None` exactly when the trimmed field is not a decimal number. On
/// `Some(v)`, `v` is the field's value in micro-degrees unless that value
/// lies outside 180 degrees on either side, in which case `v` lies outside
/// on the same side (integer parts beyond four digits saturate).
fn parse_field(chars: &Vec<char>, start: usize, end: usize) -> (r: Option<i64>)
    requires
        start <= end,
        end <= chars@.len(),
    ensures
        ({
            let t = trimmed(chars@.subrange(start as int, end as int));
            match r {
                Some(v) => is_decimal(t) && -11_000_000_000 <= v <= 11_000_000_000 && (v
                    == decimal_udeg(t) || (v > 180_000_000 && decimal_udeg(t) > 180_000_000) || (v
                    < -180_000_000 && decimal_udeg(t) < -180_000_000)),
                None => !is_decimal(t),
            }
        }),
{
    let ghost full: Seq<char> = chars@.subrange(start as int, end as int);
    let mut s: usize = start;
    while s < end && is_space_char(chars[s])
        invariant
            start <= s <= end,
            end <= chars@.len(),
            forall|j: int| start <= j < s ==> is_space(#[trigger] chars@[j]),
        decreases end - s,
    {
        s = s + 1;
    }
    let mut e: usize = end;
    while e > s && is_space_char(chars[e - 1])
        invariant
            s <= e <= end,
            end <= chars@.len(),
            forall|j: int| e <= j < end ==> is_space(#[trigger] chars@[j]),
        decreases e,
    {
        e = e - 1;
    }
    proof {
        assert forall|j: int| 0 <= j < s - start implies is_space(#[trigger] full[j]) by {
            assert(full[j] == chars@[start + j]);
        }
        assert(s - start < full.len() ==> !is_space(full[s - start])) by {
            if s - start < full.len() {
                assert(full[s - start] == chars@[s as int]);
            }
        }
        lemma_trim_front_skip(full, s - start);
        assert(full.subrange(s - start, full.len() as int) =~= chars@.subrange(
            s as int,
            end as int,
        ));
        let mid = chars@.subrange(s as int, end as int);
        assert forall|j: int| e - s <= j < mid.len() implies is_space(#[trigger] mid[j]) by {
            assert(mid[j] == chars@[s + j]);
        }
        assert(e - s > 0 ==> !is_space(mid[e - s - 1])) by {
            if e - s > 0 {
                assert(mid[e - s - 1] == chars@[e - 1]);
            }
        }
        lemma_trim_back_skip(mid, e - s);
        assert(mid.subrange(0, e - s) =~= chars@.subrange(s as int, e as int));
        assert(trimmed(full) == chars@.subrange(s as int, e as int));
    }
    let ghost t: Seq<char> = chars@.subrange(s as int, e as int);
    let mut p: usize = s;
    let mut negative: bool = false;
    if p < e {
        let c0: char = chars[p];
        if c0 == '+' || c0 == '-' {
            negative = c0 == '-';
            p = p + 1;
        }
    }
    let ghost b: Seq<char> = chars@.subrange(p as int, e as int);
    proof {
        if p > s {
            assert(t.len() > 0 && (t[0] == '+' || t[0] == '-'));
            assert(t.drop_first() =~= chars@.subrange(s + 1, e as int));
        } else {
            assert(t.len() > 0 ==> t[0] == chars@[s as int]);
        }
        assert(b =~= strip_sign(t));
        assert(negative == sign_negative(t));
    }
    if p == e {
        proof {
            assert(strip_sign(t).len() == 0);
        }
        return None;
    }
    let mut ip: i64 = 0;
    let mut fr: i64 = 0;
    let mut fcount: usize = 0;
    let mut seen_dot: bool = false;
    let mut seen_digit: bool = false;
    let ghost mut dotpos: int = 0;
    let mut k: usize = p;
    while k < e
        invariant
            p <= k <= e,
            e <= chars@.len(),
            p < e,
            start <= end <= chars@.len(),
            b == chars@.subrange(p as int, e as int),
            b == strip_sign(trimmed(chars@.subrange(start as int, end as int))),
            ({
                let bk = chars@.subrange(p as int, k as int);
                &&& (forall|j: int|
                    #![trigger bk[j]]
                    0 <= j < bk.len() ==> (is_digit(bk[j]) || bk[j] == '.'))
                &&& (seen_digit ==> exists|j: int|
                    0 <= j < bk.len() && #[trigger] is_digit(bk[j]))
                &&& (!seen_digit ==> forall|j: int|
                    #![trigger bk[j]]
                    0 <= j < bk.len() ==> !is_digit(bk[j]))
                &&& (!seen_dot ==> forall|j: int| #![trigger bk[j]] 0 <= j < bk.len() ==> bk[j]
                    != '.')
                &&& (seen_dot ==> 0 <= dotpos < bk.len() && bk[dotpos] == '.' && (forall|j: int|
                    #![trigger bk[j]]
                    0 <= j < bk.len() && j != dotpos ==> bk[j] != '.'))
                &&& ({
                    let iv = digits_val(
                        bk.subrange(
                            0,
                            if seen_dot {
                                dotpos
                            } else {
                                bk.len() as int
                            },
                        ),
                    );
                    &&& 0 <= ip <= 9999
                    &&& (iv < 1000 ==> ip == iv)
                    &&& (iv >= 1000 ==> 1000 <= ip && ip <= iv)
                })
                &&& ({
                    let fseq = if seen_dot {
                        bk.subrange(dotpos + 1, bk.len() as int)
                    } else {
                        Seq::<char>::empty()
                    };
                    &&& fcount == frac_prefix(fseq).len()
                    &&& fr == digits_val(frac_prefix(fseq))
                    &&& fcount <= 6
                    &&& 0 <= fr
                    &&& (fcount == 0 ==> fr == 0)
                    &&& (fcount == 1 ==> fr <= 9)
                    &&& (fcount == 2 ==> fr <= 99)
                    &&& (fcount == 3 ==> fr <= 999)
                    &&& (fcount == 4 ==> fr <= 9999)
                    &&& (fcount == 5 ==> fr <= 99999)
                    &&& (fcount == 6 ==> fr <= 999999)
                })
            }),
        decreases e - k,
    {
        let c: char = chars[k];
        let ghost bk: Seq<char> = chars@.subrange(p as int, k as int);
        let ghost bk1: Seq<char> = chars@.subrange(p as int, k as int + 1);
        proof {
            assert(bk1 =~= bk.push(c));
        }
        let d32: u32 = c as u32;
        if c == '.' {
            if seen_dot {
                proof {
                    assert(b[dotpos] == bk[dotpos]);
                    assert(b[k - p] == c);
                    assert(!at_most_one_dot(b));
                }
                return None;
            }
            proof {
                assert(!is_digit(c)) by {
                    assert('.' as u32 == 46);
                }
                dotpos = k - p;
                assert(bk1.subrange(0, dotpos) =~= bk);
                assert(bk.subrange(0, bk.len() as int) =~= bk);
                assert(bk1.subrange(dotpos + 1, bk1.len() as int) =~= Seq::<char>::empty());
            }
            seen_dot = true;
        } else if 48 <= d32 && d32 <= 57 {
            if !seen_dot {
                proof {
                    assert(c != '.') by {
                        assert('.' as u32 == 46);
                    }
                    assert(is_digit(c));
                    assert(bk.subrange(0, bk.len() as int) =~= bk);
                    assert(bk1.subrange(0, bk1.len() as int) =~= bk1);
                    lemma_digits_val_push(bk, c);
                    assert(bk1[bk.len() as int] == c);
                }
                if ip < 1000 {
                    ip = ip * 10 + (d32 as i64 - 48);
                }
            } else {
                proof {
                    assert(c != '.') by {
                        assert('.' as u32 == 46);
                    }
                    assert(is_digit(c));
                    assert(bk1[bk.len() as int] == c);
                    assert(bk1.subrange(0, dotpos) =~= bk.subrange(0, dotpos));
                    let fseq = bk.subrange(dotpos + 1, bk.len() as int);
                    let fseq1 = bk1.subrange(dotpos + 1, bk1.len() as int);
                    assert(fseq1 =~= fseq.push(c));
                    if fcount < 6 {
                        assert(fseq.len() < 6);
                        assert(frac_prefix(fseq1) =~= frac_prefix(fseq).push(c));
                        lemma_digits_val_push(frac_prefix(fseq), c);
                    } else {
                        assert(fseq.len() >= 6);
                        assert(frac_prefix(fseq1) =~= frac_prefix(fseq));
                    }
                }
                if fcount < 6 {
                    fr = fr * 10 + (d32 as i64 - 48);
                    fcount = fcount + 1;
                }
            }
            seen_digit = true;
        } else {
            proof {
                assert(b[k - p] == c);
                assert(!is_digit(c) && c != '.') by {
                    assert('.' as u32 == 46);
                }
            }
            return None;
        }
        k = k + 1;
    }
    proof {
        assert(chars@.subrange(p as int, k as int) =~= b);
    }
    if !seen_digit {
        return None;
    }
    proof {
        assert(b.len() == e - p);
        if seen_dot {
            assert(exists|i: int| #![trigger b[i]] 0 <= i < b.len() && b[i] == '.');
            let w = choose|i: int| #![trigger b[i]] 0 <= i < b.len() && b[i] == '.';
            assert(b[w] == '.');
            assert(w == dotpos);
            assert(dot_index(b) == dotpos);
        } else {
            assert(!(exists|i: int| #![trigger b[i]] 0 <= i < b.len() && b[i] == '.')) by {
                if exists|i: int| #![trigger b[i]] 0 <= i < b.len() && b[i] == '.' {
                    let w = choose|i: int| #![trigger b[i]] 0 <= i < b.len() && b[i] == '.';
                    assert(b[w] == '.');
                }
            }
            assert(dot_index(b) == b.len() as int);
        }
        assert(at_most_one_dot(b)) by {
            assert forall|j1: int, j2: int|
                0 <= j1 < b.len() && 0 <= j2 < b.len() && b[j1] == '.' && b[j2]
                    == '.' implies j1 == j2 by {
                assert(seen_dot);
            }
        }
        assert(is_decimal(t));
    }
    let scale: i64 = if fcount == 0 {
        1_000_000
    } else if fcount == 1 {
        100_000
    } else if fcount == 2 {
        10_000
    } else if fcount == 3 {
        1_000
    } else if fcount == 4 {
        100
    } else if fcount == 5 {
        10
    } else {
        1
    };
    proof {
        assert(pow10(0) == 1);
        assert(pow10(1) == 10);
        assert(pow10(2) == 100);
        assert(pow10(3) == 1000);
        assert(pow10(4) == 10000);
        assert(pow10(5) == 100000);
        assert(pow10(6) == 1000000);
        assert(scale == pow10(6 - fcount));
    }
    let mag: i64 = ip * 1_000_000 + fr * scale;
    proof {
        let d = dot_index(b);
        let iv = digits_val(b.subrange(0, d));
        let fv = if d < b.len() {
            frac_udeg_val(b.subrange(d + 1, b.len() as int))
        } else {
            0
        };
        if seen_dot {
            assert(b.subrange(dotpos + 1, b.len() as int) == chars@.subrange(
                p as int,
                k as int,
            ).subrange(dotpos + 1, b.len() as int));
            assert(fr * scale == fv);
        } else {
            assert(b.subrange(0, d) =~= b);
            assert(fcount == 0 && fr == 0);
            assert(fv == 0);
            assert(fr * scale == fv);
        }
        if iv < 1000 {
            assert(mag == iv * 1_000_000 + fv);
            assert(decimal_udeg(t) == if negative { -mag as int } else { mag as int });
        } else {
            assert(mag > 180_000_000);
            assert(iv * 1_000_000 + fv > 180_000_000);
            assert(decimal_udeg(t) == if sign_negative(t) { -(iv * 1_000_000 + fv) } else { iv * 1_000_000 + fv });
        }
    }
    if negative {
        Some(-mag)
    } else {
        Some(mag)
    }
}

/// Parses `"latitude,longitude"`, each field a decimal number in degrees
/// read to micro-degree precision, whitespace-padded fields allowed.
///
/// Returns the first failure in checking order: `InvalidFormat` when there
/// is not exactly one comma or a field is not a decimal number, then the
/// latitude bound, then the longitude bound.
pub fn parse_coordinates(input: &str) -> (r: Result<Location, ParseError>)
    ensures
        r == spec_parse(input@),
        r matches Ok(loc) ==> loc.wf(),
{
    let n: usize = input.unicode_len();
    let mut chars: Vec<char> = Vec::new();
    let mut i: usize = 0;
    while i < n
        invariant
            i <= n,
            n == input@.len(),
            chars@.len() == i,
            forall|j: int| #![trigger chars@[j]] 0 <= j < i ==> chars@[j] == input@[j],
        decreases n - i,
    {
        chars.push(input.get_char(i));
        i = i + 1;
    }
    proof {
        assert(chars@ =~= input@);
    }
    let mut ci: usize = 0;
    while ci < n && chars[ci] != ','
        invariant
            ci <= n,
            n == chars@.len(),
            chars@ == input@,
            forall|j: int| #![trigger chars@[j]] 0 <= j < ci ==> chars@[j] != ',',
        decreases n - ci,
    {
        ci = ci + 1;
    }
    if ci == n {
        proof {
            assert(!has_single_comma(input@)) by {
                if has_single_comma(input@) {
                    let w = choose|i: int| single_comma_at(input@, i);
                    assert(input@[w] == ',');
                }
            }
        }
        return Err(ParseError::InvalidFormat);
    }
    let mut j: usize = ci + 1;
    while j < n
        invariant
            ci < j <= n,
            n == chars@.len(),
            chars@ == input@,
            chars@[ci as int] == ',',
            forall|k: int| #![trigger chars@[k]] 0 <= k < j && k != ci ==> chars@[k] != ',',
        decreases n - j,
    {
        if chars[j] == ',' {
            proof {
                assert(!has_single_comma(input@)) by {
                    if has_single_comma(input@) {
                        let w = choose|i: int| single_comma_at(input@, i);
                        assert(single_comma_at(input@, w));
                        assert(input@[ci as int] == ',');
                        assert(input@[j as int] == ',');
                    }
                }
            }
            return Err(ParseError::InvalidFormat);
        }
        j = j + 1;
    }
    proof {
        assert(single_comma_at(input@, ci as int));
        assert(has_single_comma(input@));
        let w = comma_index(input@);
        assert(single_comma_at(input@, w));
        assert(input@[w] == ',');
        assert(w == ci as int);
    }
    let lat_v: Option<i64> = parse_field(&chars, 0, ci);
    let lat: i64 = match lat_v {
        Some(v) => v,
        None => {
            return Err(ParseError::InvalidFormat);
        },
    };
    let lon_v: Option<i64> = parse_field(&chars, ci + 1, n);
    let lon: i64 = match lon_v {
        Some(v) => v,
        None => {
            return Err(ParseError::InvalidFormat);
        },
    };
    if lat < -90_000_000 || lat > 90_000_000 {
        return Err(ParseError::LatitudeOutOfRange);
    }
    if lon < -180_000_000 || lon > 180_000_000 {
        return Err(ParseError::LongitudeOutOfRange);
    }
    Ok(Location { latitude: lat, longitude: lon })
}

} // verus!
