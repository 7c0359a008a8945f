//! Recognition of the number texts that the controller's replies carry:
//! unsigned 16-bit integers (`u16::from_str`) and the texts that
//! `f32::from_str` accepts.
use vstd::prelude::*;

verus! {

pub open spec fn is_digit(c: char) -> bool {
    '0' <= c <= '9'
}

pub open spec fn all_digits(s: Seq<char>) -> bool {
    forall|i: int| 0 <= i < s.len() ==> is_digit(#[trigger] s[i])
}

pub open spec fn digit_value(c: char) -> nat {
    ((c as int) - ('0' as int)) as nat
}

/// The value of a run of decimal digits.
pub open spec fn decimal_value(ds: Seq<char>) -> nat
    decreases ds.len(),
{
    if ds.len() == 0 {
        0
    } else {
        decimal_value(ds.drop_last()) * 10 + digit_value(ds.last())
    }
}

/// The digits of an unsigned integer text: one leading `'+'` is allowed.
pub open spec fn unsigned_digits(s: Seq<char>) -> Seq<char> {
    if s.len() > 0 && s[0] == '+' {
        s.drop_first()
    } else {
        s
    }
}

/// What `u16::from_str` gives: an optional `'+'`, then one or more ASCII
/// digits whose value fits in 16 bits.
pub open spec fn parse_u16(s: Seq<char>) -> Option<u16> {
    let d = unsigned_digits(s);
    if d.len() > 0 && all_digits(d) && decimal_value(d) <= u16::MAX {
        Some(decimal_value(d) as u16)
    } else {
        None
    }
}

/// Parses an unsigned 16-bit integer as `u16::from_str` does.
pub fn parse_u16_text(s: &[char]) -> (r: Option<u16>)
    ensures
        r == parse_u16(s@),
{
    let start: usize = if s.len() > 0 && s[0] == '+' {
        1
    } else {
        0
    };
    let ghost d = unsigned_digits(s@);
    assert(d =~= s@.skip(start as int));
    if start == s.len() {
        return None;
    }
    // `value` is the value of the digits read so far, capped at 65536.
    let mut value: u32 = 0;
    let mut i: usize = start;
    assert(d.take(0) =~= Seq::<char>::empty());
    while i < s.len()
        invariant
            start <= i <= s.len(),
            d == s@.skip(start as int),
            d == unsigned_digits(s@),
            all_digits(d.take(i - start)),
            value == if decimal_value(d.take(i - start)) < 65536 {
                decimal_value(d.take(i - start))
            } else {
                65536
            },
        decreases s.len() - i,
    {
        let c = s[i];
        if !('0' <= c && c <= '9') {
            assert(d[i - start] == c);
            assert(!is_digit(d[i - start]));
            assert(!all_digits(d));
            return None;
        }
        let digit: u32 = (c as u32) - ('0' as u32);
        let next: u32 = value * 10 + digit;
        value = if next < 65536 {
            next
        } else {
            65536
        };
        proof {
            let t = d.take(i - start + 1);
            assert(t.drop_last() =~= d.take(i - start));
            assert(t.last() == c);
        }
        i = i + 1;
        assert(all_digits(d.take(i - start)));
    }
    assert(d.take(i - start) =~= d);
    if value < 65536 {
        Some(value as u16)
    } else {
        None
    }
}

/// The decimal digit for a value below 10.
pub open spec fn digit_char(d: nat) -> char {
    ((48 + d) as u32) as char
}

/// A number written in decimal, as `Display` writes an unsigned integer:
/// no sign, no leading zeros.
pub open spec fn decimal_text(n: nat) -> Seq<char>
    decreases n,
{
    if n < 10 {
        seq![digit_char(n)]
    } else {
        decimal_text(n / 10).push(digit_char(n % 10))
    }
}

/// A number's decimal text is a run of digits whose value is the number.
pub proof fn lemma_decimal_text(n: nat)
    ensures
        decimal_text(n).len() > 0,
        all_digits(decimal_text(n)),
        decimal_value(decimal_text(n)) == n,
    decreases n,
{
    let t = decimal_text(n);
    if n < 10 {
        assert(t.drop_last() =~= Seq::<char>::empty());
        assert(t.last() == digit_char(n));
        assert(decimal_value(Seq::<char>::empty()) == 0);
        assert(digit_value(digit_char(n)) == n);
        assert(decimal_value(t) == decimal_value(t.drop_last()) * 10 + digit_value(t.last()));
    } else {
        lemma_decimal_text(n / 10);
        assert(t.drop_last() =~= decimal_text(n / 10));
        assert(t.last() == digit_char(n % 10));
        assert(digit_value(digit_char(n % 10)) == n % 10);
        assert(decimal_value(t) == decimal_value(t.drop_last()) * 10 + digit_value(t.last()));
        assert((n / 10) * 10 + n % 10 == n);
        assert forall|i: int| 0 <= i < t.len() implies is_digit(#[trigger] t[i]) by {
            if i < t.len() - 1 {
                assert(t[i] == decimal_text(n / 10)[i]);
            }
        }
    }
}

/// Reading back the decimal text of a `u16` gives the same `u16`.
pub proof fn lemma_u16_decimal_round_trip(n: u16)
    ensures
        parse_u16(decimal_text(n as nat)) == Some(n),
{
    let t = decimal_text(n as nat);
    lemma_decimal_text(n as nat);
    assert(is_digit(t[0]));
    assert(unsigned_digits(t) == t);
}

/// ASCII lower case, as `f32::from_str` compares its letters.
pub open spec fn lower_ascii(c: char) -> char {
    if 'A' <= c <= 'Z' {
        ((c as u32) + 32) as char
    } else {
        c
    }
}

/// Whether the text spells the lower-case word, ignoring ASCII case.
pub open spec fn spells(s: Seq<char>, word: Seq<char>) -> bool {
    s.len() == word.len() && forall|i: int| 0 <= i < s.len() ==> lower_ascii(s[i]) == word[i]
}

/// The text without one leading sign.
pub open spec fn unsigned_part(s: Seq<char>) -> Seq<char> {
    if s.len() > 0 && (s[0] == '+' || s[0] == '-') {
        s.drop_first()
    } else {
        s
    }
}

/// `Digit+ | Digit+ '.' Digit* | Digit* '.' Digit+`
pub open spec fn is_mantissa(m: Seq<char>) -> bool {
    ||| m.len() > 0 && all_digits(m)
    ||| exists|d: int|
        0 <= d < m.len() && m.len() >= 2 && #[trigger] m[d] == '.' && all_digits(m.take(d))
            && all_digits(m.skip(d + 1))
}

/// `'e' Sign? Digit+` (the `e` in either case).
pub open spec fn is_exponent(e: Seq<char>) -> bool {
    &&& e.len() >= 1
    &&& lower_ascii(e[0]) == 'e'
    &&& unsigned_part(e.drop_first()).len() > 0
    &&& all_digits(unsigned_part(e.drop_first()))
}

/// `Mantissa Exp?`
pub open spec fn is_number(s: Seq<char>) -> bool {
    ||| is_mantissa(s)
    ||| exists|k: int| 0 < k < s.len() && is_mantissa(#[trigger] s.take(k)) && is_exponent(s.skip(k))
}

/// The texts that `f32::from_str` accepts: by its documented grammar, an
/// optional sign and then `inf`, `infinity`, `nan` (in any case) or a
/// decimal number with an optional exponent.
pub open spec fn is_float_text(s: Seq<char>) -> bool {
    let b = unsigned_part(s);
    ||| spells(b, seq!['i', 'n', 'f'])
    ||| spells(b, seq!['i', 'n', 'f', 'i', 'n', 'i', 't', 'y'])
    ||| spells(b, seq!['n', 'a', 'n'])
    ||| is_number(b)
}

fn lower(c: char) -> (l: char)
    ensures
        l == lower_ascii(c),
{
    if 'A' <= c && c <= 'Z' {
        ((c as u8) + 32) as char
    } else {
        c
    }
}

/// Whether `cs[from..]` spells the word, ignoring ASCII case.
fn spells_from(cs: &[char], from: usize, word: &[char]) -> (b: bool)
    requires
        from <= cs.len(),
        forall|i: int| 0 <= i < word.len() ==> 'a' <= #[trigger] word@[i] <= 'z',
    ensures
        b == spells(cs@.skip(from as int), word@),
{
    if cs.len() - from != word.len() {
        return false;
    }
    let mut i: usize = 0;
    while i < word.len()
        invariant
            from + word.len() == cs.len(),
            i <= word.len(),
            forall|j: int| 0 <= j < i ==> lower_ascii(cs@[from + j]) == word@[j],
        decreases word.len() - i,
    {
        let l = lower(cs[from + i]);
        if l != word[i] {
            return false;
        }
        i = i + 1;
    }
    true
}

proof fn lemma_mantissa_chars(m: Seq<char>, i: int)
    requires
        is_mantissa(m),
        0 <= i < m.len(),
    ensures
        is_digit(m[i]) || m[i] == '.',
{
    if !(m.len() > 0 && all_digits(m)) {
        let d = choose|d: int|
            0 <= d < m.len() && m.len() >= 2 && #[trigger] m[d] == '.' && all_digits(m.take(d))
                && all_digits(m.skip(d + 1));
        if i < d {
            assert(m.take(d)[i] == m[i]);
        } else if i > d {
            assert(m.skip(d + 1)[i - d - 1] == m[i]);
        }
    }
}

/// Whether `cs[from..to]` is a mantissa: digits with at most one point and
/// at least one digit.
fn check_mantissa(cs: &[char], from: usize, to: usize) -> (b: bool)
    requires
        from <= to <= cs.len(),
    ensures
        b == is_mantissa(cs@.subrange(from as int, to as int)),
{
    let ghost m = cs@.subrange(from as int, to as int);
    let mut dot: Option<usize> = None;
    let mut i: usize = from;
    while i < to
        invariant
            from <= i <= to <= cs.len(),
            m == cs@.subrange(from as int, to as int),
            match dot {
                None => forall|j: int| 0 <= j < i - from ==> is_digit(#[trigger] m[j]),
                Some(p) => from <= p < i && m[p - from] == '.' && forall|j: int|
                    0 <= j < i - from && j != p - from ==> is_digit(#[trigger] m[j]),
            },
        decreases to - i,
    {
        let c = cs[i];
        assert(m[i - from] == c);
        if c == '.' {
            if let Some(p) = dot {
                // A second point: no split of the text fits the grammar.
                proof {
                    assert forall|d: int|
                        0 <= d < m.len() && m.len() >= 2 && #[trigger] m[d] == '.' implies !(
                        all_digits(m.take(d)) && all_digits(m.skip(d + 1))) by {
                        if d < p - from {
                            assert(!is_digit(m[d]));
                        } else if d == p - from {
                            assert(m.skip(d + 1)[i - from - d - 1] == '.');
                        } else {
                            assert(m.take(d)[p - from] == '.');
                        }
                    }
                    assert(!is_digit(m[i - from]));
                }
                return false;
            }
            dot = Some(i);
        } else if !('0' <= c && c <= '9') {
            proof {
                if is_mantissa(m) {
                    lemma_mantissa_chars(m, i - from);
                }
            }
            return false;
        }
        i = i + 1;
    }
    match dot {
        None => {
            proof {
                assert(all_digits(m));
                if m.len() == 0 {
                    assert(!is_mantissa(m));
                }
                assert forall|d: int| 0 <= d < m.len() implies #[trigger] m[d] != '.' by {
                    assert(is_digit(m[d]));
                }
            }
            to > from
        },
        Some(p) => {
            proof {
                let d = p - from;
                if m.len() >= 2 {
                    assert(all_digits(m.take(d))) by {
                        assert forall|j: int| 0 <= j < d implies is_digit(#[trigger] m.take(d)[j]) by {
                            assert(m.take(d)[j] == m[j]);
                        }
                    }
                    assert(all_digits(m.skip(d + 1))) by {
                        assert forall|j: int| 0 <= j < m.len() - d - 1 implies is_digit(
                            #[trigger] m.skip(d + 1)[j],
                        ) by {
                            assert(m.skip(d + 1)[j] == m[j + d + 1]);
                        }
                    }
                    assert(m[d] == '.');
                } else {
                    assert(!is_digit(m[d]));
                }
            }
            to - from >= 2
        },
    }
}

/// Whether `cs[at..]` is an exponent (`'e' Sign? Digit+`).
fn check_exponent(cs: &[char], at: usize) -> (b: bool)
    requires
        at < cs.len(),
    ensures
        b == is_exponent(cs@.skip(at as int)),
{
    let ghost e = cs@.skip(at as int);
    if lower(cs[at]) != 'e' {
        return false;
    }
    let mut i: usize = at + 1;
    if i < cs.len() && (cs[i] == '+' || cs[i] == '-') {
        i = i + 1;
    }
    let ghost u = unsigned_part(e.drop_first());
    assert(u =~= cs@.skip(i as int));
    if i == cs.len() {
        return false;
    }
    let start = i;
    while i < cs.len()
        invariant
            start <= i <= cs.len(),
            at < cs.len(),
            u == cs@.skip(start as int),
            u == unsigned_part(cs@.skip(at as int).drop_first()),
            u.len() > 0,
            forall|j: int| 0 <= j < i - start ==> is_digit(#[trigger] u[j]),
        decreases cs.len() - i,
    {
        let c = cs[i];
        assert(u[i - start] == c);
        if !('0' <= c && c <= '9') {
            assert(!is_digit(u[i - start]));
            return false;
        }
        i = i + 1;
    }
    true
}

/// Whether the text is one that `f32::from_str` accepts.
pub fn is_float_literal(cs: &[char]) -> (b: bool)
    ensures
        b == is_float_text(cs@),
{
    let from: usize = if cs.len() > 0 && (cs[0] == '+' || cs[0] == '-') {
        1
    } else {
        0
    };
    let ghost b = unsigned_part(cs@);
    assert(b =~= cs@.skip(from as int));
    let inf = vec!['i', 'n', 'f'];
    let infinity = vec!['i', 'n', 'f', 'i', 'n', 'i', 't', 'y'];
    let nan = vec!['n', 'a', 'n'];
    assert(inf@ =~= seq!['i', 'n', 'f']);
    assert(infinity@ =~= seq!['i', 'n', 'f', 'i', 'n', 'i', 't', 'y']);
    assert(nan@ =~= seq!['n', 'a', 'n']);
    if spells_from(cs, from, &inf) || spells_from(cs, from, &infinity) || spells_from(
        cs,
        from,
        &nan,
    ) {
        return true;
    }
    // The mantissa runs up to the first `e` or `E`.
    let mut k: usize = from;
    while k < cs.len() && lower(cs[k]) != 'e'
        invariant
            from <= k <= cs.len(),
            b == cs@.skip(from as int),
            forall|j: int| 0 <= j < k - from ==> lower_ascii(#[trigger] b[j]) != 'e',
        decreases cs.len() - k,
    {
        assert(b[k - from] == cs@[k as int]);
        k = k + 1;
    }
    let ghost rel = k - from;
    assert(b.take(rel) =~= cs@.subrange(from as int, k as int));
    if k == cs.len() {
        assert(b.take(rel) =~= b);
        let r = check_mantissa(cs, from, k);
        proof {
            assert forall|k2: int| 0 < k2 < b.len() && is_mantissa(#[trigger] b.take(k2)) implies !is_exponent(
                b.skip(k2),
            ) by {
                assert(b.skip(k2)[0] == b[k2]);
            }
        }
        return r;
    }
    assert(b.skip(rel) =~= cs@.skip(k as int));
    assert(lower_ascii(b[rel]) == 'e');
    proof {
        // A text holding an `e` is no bare mantissa.
        if is_mantissa(b) {
            lemma_mantissa_chars(b, rel);
        }
        // Any split into mantissa and exponent is at the first `e`.
        assert forall|k2: int|
            0 < k2 < b.len() && is_mantissa(#[trigger] b.take(k2)) && is_exponent(b.skip(k2)) implies k2
            == rel by {
            assert(b.skip(k2)[0] == b[k2]);
            if k2 < rel {
                assert(lower_ascii(b[k2]) != 'e');
            } else if k2 > rel {
                lemma_mantissa_chars(b.take(k2), rel);
                assert(b.take(k2)[rel] == b[rel]);
            }
        }
    }
    if k == from {
        return false;
    }
    check_mantissa(cs, from, k) && check_exponent(cs, k)
}

} // verus!
