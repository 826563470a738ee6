//! Exact decimal numbers for the constants of a node graph.
//!
//! A `Decimal` is `±magnitude / 10^scale`. It is written as a WGSL float
//! literal: the integer part, a point, and the fractional digits without
//! trailing zeros (at least one digit), e.g. `1.0`, `0.25`, `-3.5`.
use vstd::prelude::*;
use crate::text::{digit_char, digit_char_exec, find, find_exec, lemma_find, nat_text, occurs_at, push_chars, push_nat, sub_vec};

verus! {

/// The largest scale: `10^19` still fits in a `u64`.
pub const MAX_SCALE: u8 = 19;

/// `±magnitude / 10^scale`.
#[derive(Clone, Copy, Debug, PartialEq, Eq)]
pub struct Decimal {
    pub negative: bool,
    pub magnitude: u64,
    pub scale: u8,
}

pub open spec fn pow10(n: nat) -> nat
    decreases n,
{
    if n == 0 {
        1
    } else {
        10 * pow10((n - 1) as nat)
    }
}

/// The `w` lowest decimal digits of `n`, with leading zeros.
pub open spec fn fixed_digits(n: nat, w: nat) -> Seq<char>
    decreases w,
{
    if w == 0 {
        seq![]
    } else {
        fixed_digits(n / 10, (w - 1) as nat) + seq![digit_char(n % 10)]
    }
}

/// `s` without its trailing `'0'` characters.
pub open spec fn strip_zeros(s: Seq<char>) -> Seq<char>
    decreases s.len(),
{
    if s.len() > 0 && s.last() == '0' {
        strip_zeros(s.drop_last())
    } else {
        s
    }
}

impl Decimal {
    pub open spec fn wf(self) -> bool {
        self.scale <= MAX_SCALE
    }

    /// The digits after the point, as written.
    pub open spec fn fraction_text(self) -> Seq<char> {
        let f = strip_zeros(
            fixed_digits(self.magnitude as nat % pow10(self.scale as nat), self.scale as nat),
        );
        if f.len() == 0 {
            seq!['0']
        } else {
            f
        }
    }

    /// The literal that stands for this number in generated code.
    pub open spec fn text(self) -> Seq<char> {
        (if self.negative {
            seq!['-']
        } else {
            seq![]
        }) + nat_text(self.magnitude as nat / pow10(self.scale as nat)) + seq!['.']
            + self.fraction_text()
    }

    /// The whole number `n`.
    pub fn from_int(n: i64) -> (d: Decimal)
        ensures
            d.wf(),
            d.scale == 0,
            d.negative == (n < 0),
            d.magnitude as int == if n < 0 {
                -n
            } else {
                n as int
            },
    {
        if n < 0 {
            let m: u64 = if n == i64::MIN {
                9223372036854775808u64
            } else {
                (-n) as u64
            };
            Decimal { negative: true, magnitude: m, scale: 0 }
        } else {
            Decimal { negative: false, magnitude: n as u64, scale: 0 }
        }
    }

    /// `±magnitude / 10^scale`.
    pub fn new(negative: bool, magnitude: u64, scale: u8) -> (d: Decimal)
        requires
            scale <= MAX_SCALE,
        ensures
            d.wf(),
            d == (Decimal { negative, magnitude, scale }),
    {
        Decimal { negative, magnitude, scale }
    }

    /// Appends the literal of this number to `out`.
    pub fn write_to(&self, out: &mut Vec<char>)
        requires
            self.wf(),
        ensures
            final(out)@ == old(out)@ + self.text(),
    {
        let ghost start = out@;
        if self.negative {
            out.push('-');
        }
        let p = pow10_exec(self.scale);
        let int_part = self.magnitude / p;
        let frac = self.magnitude % p;
        push_nat(out, int_part as u128);
        out.push('.');
        let digits = fixed_digits_exec(frac, self.scale);
        let stripped = strip_zeros_exec(&digits);
        if stripped.len() == 0 {
            out.push('0');
        } else {
            push_chars(out, stripped.as_slice());
        }
        proof {
            let sign: Seq<char> = if self.negative {
                seq!['-']
            } else {
                seq![]
            };
            assert(out@ =~= start + self.text());
        }
    }
}


pub open spec fn is_digit(c: char) -> bool {
    '0' <= c && c <= '9'
}

pub open spec fn all_digits(s: Seq<char>) -> bool {
    forall|i: int| 0 <= i < s.len() ==> is_digit(#[trigger] s[i])
}

/// The number that a string of decimal digits denotes.
pub open spec fn digits_value(s: Seq<char>) -> nat
    decreases s.len(),
{
    if s.len() == 0 {
        0
    } else {
        digits_value(s.drop_last()) * 10 + ((s.last() as int) - ('0' as int)) as nat
    }
}

/// The decimal that a literal `[-]<digits>.<digits>` denotes, if the text is
/// one and the number fits.
pub open spec fn parse_decimal(t: Seq<char>) -> Option<Decimal> {
    let neg = t.len() > 0 && t[0] == '-';
    let body = if neg {
        t.subrange(1, t.len() as int)
    } else {
        t
    };
    match find(body, seq!['.']) {
        None => None,
        Some(p) => {
            let ip = body.subrange(0, p);
            let fp = body.subrange(p + 1, body.len() as int);
            if ip.len() > 0 && fp.len() > 0 && fp.len() <= MAX_SCALE && all_digits(ip)
                && all_digits(fp) && digits_value(ip + fp) <= u64::MAX {
                Some(
                    Decimal {
                        negative: neg,
                        magnitude: digits_value(ip + fp) as u64,
                        scale: fp.len() as u8,
                    },
                )
            } else {
                None
            }
        },
    }
}

proof fn lemma_digits_value_prefix(s: Seq<char>, k: int)
    requires
        0 <= k <= s.len(),
    ensures
        digits_value(s.subrange(0, k)) <= digits_value(s),
    decreases s.len() - k,
{
    if k < s.len() {
        lemma_digits_value_prefix(s, k + 1);
        assert(s.subrange(0, k + 1).drop_last() =~= s.subrange(0, k));
    } else {
        assert(s.subrange(0, k) =~= s);
    }
}

/// The value of a string of digits, if it fits in a `u64`.
pub fn digits_value_exec(s: &[char]) -> (r: Option<u64>)
    requires
        all_digits(s@),
    ensures
        r matches Some(v) ==> v as nat == digits_value(s@),
        r is None ==> digits_value(s@) > u64::MAX,
{
    let mut v: u64 = 0;
    let mut i: usize = 0;
    while i < s.len()
        invariant
            i <= s@.len(),
            all_digits(s@),
            v as nat == digits_value(s@.subrange(0, i as int)),
        decreases s@.len() - i,
    {
        let c = s[i];
        assert(is_digit(s@[i as int]));
        let d: u64 = (c as u32 - '0' as u32) as u64;
        assert(s@.subrange(0, i + 1).drop_last() =~= s@.subrange(0, i as int));
        if v > (u64::MAX - d) / 10 {
            proof {
                lemma_digits_value_prefix(s@, i + 1);
            }
            return None;
        }
        v = v * 10 + d;
        i = i + 1;
    }
    assert(s@.subrange(0, s@.len() as int) =~= s@);
    Some(v)
}

pub fn all_digits_exec(s: &[char]) -> (b: bool)
    ensures
        b == all_digits(s@),
{
    let mut i: usize = 0;
    while i < s.len()
        invariant
            i <= s@.len(),
            forall|j: int| 0 <= j < i ==> is_digit(#[trigger] s@[j]),
        decreases s@.len() - i,
    {
        if !('0' <= s[i] && s[i] <= '9') {
            return false;
        }
        i = i + 1;
    }
    true
}

pub proof fn lemma_parse_decimal_wf(t: Seq<char>)
    ensures
        parse_decimal(t) matches Some(d) ==> d.wf(),
{
}

/// Reads a decimal literal `[-]<digits>.<digits>`.
pub fn parse_decimal_exec(t: &[char]) -> (r: Option<Decimal>)
    ensures
        r == parse_decimal(t@),
        r matches Some(d) ==> d.wf(),
{
    let neg = t.len() > 0 && t[0] == '-';
    let body = if neg {
        sub_vec(t, 1, t.len())
    } else {
        sub_vec(t, 0, t.len())
    };
    assert(t@.subrange(0, t@.len() as int) =~= t@);
    let dot = ['.'];
    proof {
        assert(dot@ =~= seq!['.']);
        lemma_find(body@, dot@);
    }
    match find_exec(body.as_slice(), &dot) {
        None => None,
        Some(p) => {
            proof {
                assert(occurs_at(body@, dot@, p as int));
            }
            let ip = sub_vec(body.as_slice(), 0, p);
            let fp = sub_vec(body.as_slice(), p + 1, body.len());
            if ip.len() > 0 && fp.len() > 0 && fp.len() <= MAX_SCALE as usize && all_digits_exec(
                ip.as_slice(),
            ) && all_digits_exec(fp.as_slice()) {
                let mut all = ip.clone();
                let mut fp2 = sub_vec(body.as_slice(), p + 1, body.len());
                all.append(&mut fp2);
                assert(all@ =~= ip@ + fp@);
                assert(all_digits(all@)) by {
                    assert forall|i: int| 0 <= i < all@.len() implies is_digit(#[trigger] all@[i]) by {
                        if i < ip@.len() {
                            assert(all@[i] == ip@[i]);
                        } else {
                            assert(all@[i] == fp@[i - ip@.len()]);
                        }
                    }
                }
                match digits_value_exec(all.as_slice()) {
                    Some(m) => Some(Decimal { negative: neg, magnitude: m, scale: fp.len() as u8 }),
                    None => None,
                }
            } else {
                None
            }
        },
    }
}

pub fn pow10_exec(n: u8) -> (p: u64)
    requires
        n <= MAX_SCALE,
    ensures
        p as nat == pow10(n as nat),
        p > 0,
{
    let mut p: u64 = 1;
    let mut i: u8 = 0;
    while i < n
        invariant
            i <= n <= MAX_SCALE,
            p as nat == pow10(i as nat),
            p > 0,
        decreases n - i,
    {
        proof {
            lemma_pow10_bound(i as nat);
        }
        p = p * 10;
        i = i + 1;
    }
    p
}

proof fn lemma_pow10_bound(n: nat)
    requires
        n < 19,
    ensures
        pow10(n) * 10 <= 10000000000000000000,
{
    lemma_pow10_mono(n, 18);
    reveal_with_fuel(pow10, 19);
    assert(pow10(18) == 1000000000000000000);
}

proof fn lemma_pow10_mono(a: nat, b: nat)
    requires
        a <= b,
    ensures
        pow10(a) <= pow10(b),
    decreases b - a,
{
    if a < b {
        lemma_pow10_mono(a, (b - 1) as nat);
    }
}

pub fn fixed_digits_exec(n: u64, w: u8) -> (r: Vec<char>)
    ensures
        r@ == fixed_digits(n as nat, w as nat),
    decreases w,
{
    if w == 0 {
        Vec::new()
    } else {
        let mut r = fixed_digits_exec(n / 10, w - 1);
        r.push(digit_char_exec((n % 10) as u128));
        r
    }
}

pub fn strip_zeros_exec(s: &Vec<char>) -> (r: Vec<char>)
    ensures
        r@ == strip_zeros(s@),
{
    let mut k = s.len();
    assert(s@.subrange(0, k as int) =~= s@);
    while k > 0 && s[k - 1] == '0'
        invariant
            k <= s@.len(),
            strip_zeros(s@) == strip_zeros(s@.subrange(0, k as int)),
        decreases k,
    {
        assert(s@.subrange(0, k as int).drop_last() =~= s@.subrange(0, k - 1));
        k = k - 1;
    }
    let mut r: Vec<char> = Vec::new();
    let mut i: usize = 0;
    while i < k
        invariant
            i <= k <= s@.len(),
            r@ == s@.subrange(0, i as int),
        decreases k - i,
    {
        r.push(s[i]);
        i = i + 1;
        assert(r@ =~= s@.subrange(0, i as int));
    }
    r
}

} // verus!
