use vstd::prelude::*;

verus! {

/// One server timing metric: a name, an optional description and an optional
/// duration.
///
/// The duration is held in nanoseconds and rendered in milliseconds, with as
/// many fractional digits as it needs and no trailing zeros.
#[derive(Debug, Clone, PartialEq)]
pub struct Timing {
    pub name: String,
    pub desc: Option<String>,
    /// How long the operation took, in nanoseconds.
    pub dur: Option<u64>,
}

pub const NANOS_PER_MILLI: u64 = 1_000_000;

/// The character of a decimal digit.
pub open spec fn digit_char(d: nat) -> char {
    ((d % 10) + 48) as char
}

/// Ten to the power `k`.
pub open spec fn pow10(k: nat) -> nat
    decreases k,
{
    if k == 0 {
        1
    } else {
        10 * pow10((k - 1) as nat)
    }
}

/// The decimal digits of `n`, without leading zeros (`0` is one digit).
pub open spec fn decimal(n: nat) -> Seq<char>
    decreases n,
{
    if n < 10 {
        seq![digit_char(n)]
    } else {
        decimal(n / 10).push(digit_char(n % 10))
    }
}

/// The last `w` decimal digits of `n`, padded with leading zeros.
pub open spec fn fixed_digits(n: nat, w: nat) -> Seq<char>
    decreases w,
{
    if w == 0 {
        Seq::empty()
    } else {
        fixed_digits(n / 10, (w - 1) as nat).push(digit_char(n % 10))
    }
}

/// `s` without its trailing `'0'` characters.
pub open spec fn trim_zeros(s: Seq<char>) -> Seq<char>
    decreases s.len(),
{
    if s.len() > 0 && s.last() == '0' {
        trim_zeros(s.drop_last())
    } else {
        s
    }
}

/// A duration of `nanos` nanoseconds written in milliseconds: the whole
/// milliseconds, then, where the rest is not zero, a point and the six
/// fractional digits without their trailing zeros.
pub open spec fn millis_text(nanos: nat) -> Seq<char> {
    let whole = decimal(nanos / NANOS_PER_MILLI as nat);
    let frac = nanos % NANOS_PER_MILLI as nat;
    if frac == 0 {
        whole
    } else {
        whole + seq!['.'] + trim_zeros(fixed_digits(frac, 6))
    }
}

/// `s` with a backslash before each double quote.
pub open spec fn escape_quotes(s: Seq<char>) -> Seq<char>
    decreases s.len(),
{
    if s.len() == 0 {
        Seq::empty()
    } else if s.last() == '"' {
        escape_quotes(s.drop_last()) + seq!['\\', '"']
    } else {
        escape_quotes(s.drop_last()).push(s.last())
    }
}

/// The `;desc="..."` parameter for a description.
pub open spec fn desc_param(desc: Seq<char>) -> Seq<char> {
    seq![';', 'd', 'e', 's', 'c', '=', '"'] + escape_quotes(desc) + seq!['"']
}

/// The `;dur=...` parameter for a duration in nanoseconds.
pub open spec fn dur_param(nanos: nat) -> Seq<char> {
    seq![';', 'd', 'u', 'r', '='] + millis_text(nanos)
}

/// The metric text `name[;desc="<escaped desc>"][;dur=<millis>]`.
pub open spec fn timing_text(name: Seq<char>, desc: Option<Seq<char>>, dur: Option<u64>) -> Seq<char> {
    let d = match desc {
        Some(s) => desc_param(s),
        None => Seq::empty(),
    };
    let u = match dur {
        Some(n) => dur_param(n as nat),
        None => Seq::empty(),
    };
    name + d + u
}

impl Timing {
    pub open spec fn desc_view(&self) -> Option<Seq<char>> {
        match self.desc {
            Some(s) => Some(s@),
            None => None,
        }
    }

    /// The text of this metric in a `server-timing` header.
    pub open spec fn text(&self) -> Seq<char> {
        timing_text(self.name@, self.desc_view(), self.dur)
    }

    /// Renders this metric as it stands in a `server-timing` header.
    pub fn to_string(&self) -> (r: String)
        ensures
            r@ == self.text(),
    {
        let mut out: Vec<char> = Vec::new();
        self.push_text(&mut out);
        chars_to_string(out)
    }

    /// Appends the text of this metric to `out`.
    pub fn push_text(&self, out: &mut Vec<char>)
        ensures
            final(out)@ == old(out)@ + self.text(),
    {
        let ghost start = out@;
        push_str_chars(out, self.name.as_str());
        if let Some(desc) = &self.desc {
            let ghost before = out@;
            push_desc(out, desc.as_str());
            assert(out@ == before + desc_param(desc@));
        }
        if let Some(nanos) = self.dur {
            push_dur(out, nanos);
        }
        assert(out@ =~= start + self.text());
    }
}

/// Relies on `String`'s `FromIterator<char>`: the string holds the characters
/// in their order.
#[verifier::external_body]
pub(crate) fn chars_to_string(v: Vec<char>) -> (r: String)
    ensures
        r@ == v@,
{
    v.into_iter().collect()
}

/// Appends the characters of `s` to `out`.
pub fn push_str_chars(out: &mut Vec<char>, s: &str)
    ensures
        final(out)@ == old(out)@ + s@,
{
    let ghost start = out@;
    for c in it: s.chars()
        invariant
            it.seq() == s@,
            out@ == start + s@.take(it.index() as int),
    {
        proof {
            assert(s@.take(it.index() + 1) == s@.take(it.index() as int).push(c));
        }
        out.push(c);
    }
    assert(s@.take(s@.len() as int) =~= s@);
}

proof fn lemma_escape_push(s: Seq<char>, c: char)
    ensures
        escape_quotes(s.push(c)) == escape_quotes(s) + (if c == '"' { seq!['\\', '"'] } else { seq![c] }),
{
    assert(s.push(c).drop_last() =~= s);
    if c != '"' {
        assert(escape_quotes(s).push(c) =~= escape_quotes(s) + seq![c]);
    }
}

/// Appends `;desc="..."` for `desc` to `out`, with its quotes escaped.
fn push_desc(out: &mut Vec<char>, desc: &str)
    ensures
        final(out)@ == old(out)@ + desc_param(desc@),
{
    let ghost start = out@;
    out.push(';');
    out.push('d');
    out.push('e');
    out.push('s');
    out.push('c');
    out.push('=');
    out.push('"');
    let ghost opened = out@;
    assert(opened =~= start + seq![';', 'd', 'e', 's', 'c', '=', '"']);
    for c in it: desc.chars()
        invariant
            it.seq() == desc@,
            out@ == opened + escape_quotes(desc@.take(it.index() as int)),
    {
        proof {
            let k = it.index() as int;
            assert(desc@.take(k + 1) =~= desc@.take(k).push(c));
            lemma_escape_push(desc@.take(k), c);
        }
        if c == '"' {
            out.push('\\');
            out.push('"');
        } else {
            out.push(c);
        }
        proof {
            let k = it.index() as int;
            assert(out@ =~= opened + escape_quotes(desc@.take(k + 1)));
        }
    }
    assert(desc@.take(desc@.len() as int) =~= desc@);
    out.push('"');
    assert(out@ =~= start + desc_param(desc@));
}

/// Appends `;dur=<millis>` for a duration of `nanos` nanoseconds to `out`.
fn push_dur(out: &mut Vec<char>, nanos: u64)
    ensures
        final(out)@ == old(out)@ + dur_param(nanos as nat),
{
    let ghost start = out@;
    out.push(';');
    out.push('d');
    out.push('u');
    out.push('r');
    out.push('=');
    assert(out@ =~= start + seq![';', 'd', 'u', 'r', '=']);
    push_millis(out, nanos);
    assert(out@ =~= start + dur_param(nanos as nat));
}

fn digit(d: u64) -> (c: char)
    requires
        d < 10,
    ensures
        c == digit_char(d as nat),
{
    ((d as u8) + 48u8) as char
}

/// Appends the decimal digits of `n` to `out`.
fn push_decimal(out: &mut Vec<char>, n: u64)
    ensures
        final(out)@ == old(out)@ + decimal(n as nat),
    decreases n,
{
    if n >= 10 {
        push_decimal(out, n / 10);
    }
    out.push(digit(n % 10));
    assert(out@ =~= old(out)@ + decimal(n as nat));
}

/// Appends the last `w` decimal digits of `n`, padded with zeros, to `out`.
fn push_fixed(out: &mut Vec<char>, n: u64, w: u64)
    ensures
        final(out)@ == old(out)@ + fixed_digits(n as nat, w as nat),
    decreases w,
{
    if w > 0 {
        push_fixed(out, n / 10, w - 1);
        out.push(digit(n % 10));
    }
    assert(out@ =~= old(out)@ + fixed_digits(n as nat, w as nat));
}

proof fn lemma_trim_fixed(n: nat, w: nat)
    requires
        w > 0,
        n % 10 == 0,
    ensures
        trim_zeros(fixed_digits(n, w)) == trim_zeros(fixed_digits(n / 10, (w - 1) as nat)),
{
    let s = fixed_digits(n, w);
    assert(s.drop_last() =~= fixed_digits(n / 10, (w - 1) as nat));
}

proof fn lemma_fixed_last(n: nat, w: nat)
    requires
        w > 0,
        n % 10 != 0,
    ensures
        trim_zeros(fixed_digits(n, w)) == fixed_digits(n, w),
{
    assert(digit_char(n % 10) != '0');
}

/// Appends the text of a duration of `nanos` nanoseconds, in milliseconds.
fn push_millis(out: &mut Vec<char>, nanos: u64)
    ensures
        final(out)@ == old(out)@ + millis_text(nanos as nat),
{
    let ghost start = out@;
    push_decimal(out, nanos / NANOS_PER_MILLI);
    let mut frac: u64 = nanos % NANOS_PER_MILLI;
    if frac != 0 {
        out.push('.');
        let ghost frac0 = frac as nat;
        let mut w: u64 = 6;
        proof {
            reveal_with_fuel(pow10, 7);
        }
        assert(pow10(6) == 1_000_000);
        while frac % 10 == 0
            invariant
                0 < frac < pow10(w as nat),
                0 < w <= 6,
                trim_zeros(fixed_digits(frac0, 6)) == trim_zeros(fixed_digits(frac as nat, w as nat)),
            decreases w,
        {
            proof {
                lemma_trim_fixed(frac as nat, w as nat);
                let p = pow10((w - 1) as nat);
                assert(pow10(w as nat) == 10 * p);
                assert(frac / 10 < p) by (nonlinear_arith)
                    requires frac < 10 * p, p > 0;
                if w == 1 {
                    assert(p == 1);
                }
            }
            frac = frac / 10;
            w = w - 1;
        }
        proof {
            lemma_fixed_last(frac as nat, w as nat);
        }
        push_fixed(out, frac, w);
    }
    assert(out@ =~= start + millis_text(nanos as nat));
}

} // verus!
