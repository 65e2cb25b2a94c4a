use crate::ohlc::RollingOHLC;
use vstd::prelude::*;
use vstd::string::StringSliceAdditionalSpecFns;
use vstd::utf8::encode_utf8;

verus! {

/// The ASCII digit for `d` in 0..=9.
pub open spec fn digit(d: int) -> u8 {
    (48 + d) as u8
}

/// The decimal digits of `n`, without leading zeros.
pub open spec fn decimal(n: nat) -> Seq<u8>
    decreases n,
{
    if n < 10 {
        seq![digit(n as int)]
    } else {
        decimal(n / 10) + seq![digit((n % 10) as int)]
    }
}

/// The last `k` decimal digits of `f`, padded with leading zeros.
pub open spec fn padded(f: nat, k: nat) -> Seq<u8>
    decreases k,
{
    if k == 0 {
        Seq::empty()
    } else {
        padded(f / 10, (k - 1) as nat) + seq![digit((f % 10) as int)]
    }
}

/// The last `k` decimal digits of `f` with the trailing zeros dropped, keeping
/// at least one digit.
pub open spec fn trimmed(f: nat, k: nat) -> Seq<u8>
    decreases k,
{
    if k > 1 && f % 10 == 0 {
        trimmed(f / 10, (k - 1) as nat)
    } else {
        padded(f, k)
    }
}

pub open spec fn abs(v: int) -> nat {
    if v < 0 { (-v) as nat } else { v as nat }
}

/// A minus sign for a negative value.
pub open spec fn sign(v: int) -> Seq<u8> {
    if v < 0 { seq![45u8] } else { Seq::empty() }
}

/// The price `v` in whole units with exactly six decimals: `-12.500000`.
pub open spec fn fixed6(v: int) -> Seq<u8> {
    sign(v) + decimal(abs(v) / 1_000_000) + seq![46u8] + padded(abs(v) % 1_000_000, 6)
}

/// The price `v` as the shortest JSON number that denotes it: `77.7`, `10.0`,
/// and for the smallest magnitudes, below one hundred-thousandth, `3e-6`.
pub open spec fn short_number(v: int) -> Seq<u8> {
    if 0 < abs(v) < 10 {
        sign(v) + seq![digit(abs(v) as int), 101u8, 45u8, 54u8]
    } else {
        sign(v) + decimal(abs(v) / 1_000_000) + seq![46u8] + trimmed(abs(v) % 1_000_000, 6)
    }
}

/// A lower-case hexadecimal digit for `d` in 0..16.
pub open spec fn hex_digit(d: int) -> u8 {
    if d < 10 { (48 + d) as u8 } else { (87 + d) as u8 }
}

/// How one byte of a string stands inside a JSON string literal: a quote and a
/// backslash get a backslash, the control bytes 0x08, 0x09, 0x0A, 0x0C and 0x0D
/// become `\b`, `\t`, `\n`, `\f` and `\r`, the other bytes below 0x20 become
/// `\u00XX`, and every other byte stands as it is.
pub open spec fn escape_byte(c: u8) -> Seq<u8> {
    if c == 34 {
        seq![92u8, 34u8]
    } else if c == 92 {
        seq![92u8, 92u8]
    } else if c == 8 {
        seq![92u8, 98u8]
    } else if c == 9 {
        seq![92u8, 116u8]
    } else if c == 10 {
        seq![92u8, 110u8]
    } else if c == 12 {
        seq![92u8, 102u8]
    } else if c == 13 {
        seq![92u8, 114u8]
    } else if c < 32 {
        seq![92u8, 117u8, 48u8, 48u8, hex_digit(c as int / 16), hex_digit(c as int % 16)]
    } else {
        seq![c]
    }
}

/// The bytes `b` escaped for the inside of a JSON string literal.
pub open spec fn escaped(b: Seq<u8>) -> Seq<u8>
    decreases b.len(),
{
    if b.len() == 0 {
        Seq::empty()
    } else {
        escaped(b.drop_last()) + escape_byte(b.last())
    }
}

/// The JSON string literal of the UTF-8 bytes `b`, quotes included.
pub open spec fn json_string(b: Seq<u8>) -> Seq<u8> {
    seq![34u8] + escaped(b) + seq![34u8]
}

/// The `symbol` value: the quoted ticker, or `null` without one.
pub open spec fn symbol_json(t: Option<String>) -> Seq<u8> {
    match t {
        Some(s) => json_string(encode_utf8(s@)),
        None => "null".spec_bytes(),
    }
}

/// The output record of one snapshot whose `symbol` value is written as the
/// bytes `symbol`: open, high and close as strings with six decimals, low as a
/// bare number, and the window's end as `timestamp`.
pub open spec fn json_record_with(r: RollingOHLC, symbol: Seq<u8>) -> Seq<u8> {
    "{\"symbol\":".spec_bytes() + symbol + ",\"open\":\"".spec_bytes() + fixed6(r.open as int)
        + "\",\"high\":\"".spec_bytes() + fixed6(r.high as int) + "\",\"low\":".spec_bytes()
        + short_number(r.low as int) + ",\"close\":\"".spec_bytes() + fixed6(r.close as int)
        + "\",\"timestamp\":".spec_bytes() + decimal(r.timestamp_end as nat) + "}".spec_bytes()
}

/// The output record of one snapshot, its ticker written as a JSON string.
pub open spec fn json_record(r: RollingOHLC) -> Seq<u8> {
    json_record_with(r, symbol_json(r.ticker))
}

/// Relies on `serde_json::to_string` for a `str`: the string literal that its
/// serializer writes, quoted and escaped byte by byte from its escape table.
/// Writing a `str` into memory reports no error, so the default string of the
/// error arm is never returned.
#[verifier::external_body]
fn quote_json(s: &str) -> (r: String)
    ensures
        encode_utf8(r@) == json_string(encode_utf8(s@)),
{
    serde_json::to_string(s).unwrap_or_default()
}

fn push_bytes(out: &mut Vec<u8>, b: &[u8])
    ensures
        final(out)@ == old(out)@ + b@,
{
    let ghost start = out@;
    let mut i: usize = 0;
    while i < b.len()
        invariant
            i <= b@.len(),
            out@ == start + b@.take(i as int),
        decreases b@.len() - i,
    {
        proof {
            assert(b@.take(i + 1) =~= b@.take(i as int).push(b@[i as int]));
        }
        out.push(b[i]);
        i = i + 1;
    }
    proof {
        assert(b@.take(b@.len() as int) =~= b@);
    }
}

fn push_str(out: &mut Vec<u8>, s: &str)
    ensures
        final(out)@ == old(out)@ + s.spec_bytes(),
{
    push_bytes(out, s.as_bytes());
}

fn push_decimal(out: &mut Vec<u8>, n: u64)
    ensures
        final(out)@ == old(out)@ + decimal(n as nat),
    decreases n,
{
    let ghost start = out@;
    if n >= 10 {
        push_decimal(out, n / 10);
    }
    out.push(48u8 + (n % 10) as u8);
    proof {
        if n >= 10 {
            assert(out@ =~= start + (decimal((n / 10) as nat) + seq![digit((n % 10) as int)]));
        } else {
            assert(out@ =~= start + seq![digit(n as int)]);
        }
    }
}

fn push_padded(out: &mut Vec<u8>, f: u64, k: u64)
    ensures
        final(out)@ == old(out)@ + padded(f as nat, k as nat),
    decreases k,
{
    let ghost start = out@;
    if k > 0 {
        push_padded(out, f / 10, k - 1);
        out.push(48u8 + (f % 10) as u8);
        proof {
            assert(out@ =~= start + (padded((f / 10) as nat, (k - 1) as nat) + seq![
                digit((f % 10) as int),
            ]));
        }
    } else {
        assert(out@ =~= start + padded(f as nat, k as nat));
    }
}

fn push_trimmed(out: &mut Vec<u8>, f: u64, k: u64)
    ensures
        final(out)@ == old(out)@ + trimmed(f as nat, k as nat),
    decreases k,
{
    if k > 1 && f % 10 == 0 {
        push_trimmed(out, f / 10, k - 1);
    } else {
        push_padded(out, f, k);
    }
}

fn magnitude(v: i64) -> (r: u64)
    ensures
        r as nat == abs(v as int),
{
    if v < 0 {
        (0i128 - v as i128) as u64
    } else {
        v as u64
    }
}

fn push_fixed6(out: &mut Vec<u8>, v: i64)
    ensures
        final(out)@ == old(out)@ + fixed6(v as int),
{
    let ghost start = out@;
    let a = magnitude(v);
    if v < 0 {
        out.push(45u8);
    }
    let ghost s1 = out@;
    push_decimal(out, a / 1_000_000);
    out.push(46u8);
    push_padded(out, a % 1_000_000, 6);
    proof {
        assert(s1 =~= start + sign(v as int));
        assert(out@ =~= start + fixed6(v as int));
    }
}

fn push_short_number(out: &mut Vec<u8>, v: i64)
    ensures
        final(out)@ == old(out)@ + short_number(v as int),
{
    let ghost start = out@;
    let a = magnitude(v);
    if v < 0 {
        out.push(45u8);
    }
    let ghost s1 = out@;
    proof {
        assert(s1 =~= start + sign(v as int));
    }
    if 0 < a && a < 10 {
        out.push(48u8 + a as u8);
        out.push(101u8);
        out.push(45u8);
        out.push(54u8);
        proof {
            assert(out@ =~= start + short_number(v as int));
        }
    } else {
        push_decimal(out, a / 1_000_000);
        out.push(46u8);
        push_trimmed(out, a % 1_000_000, 6);
        proof {
            assert(out@ =~= start + short_number(v as int));
        }
    }
}

impl RollingOHLC {
    /// The output record of this snapshot with `symbol` as the bytes of the
    /// `symbol` value.
    fn record_with_symbol(&self, symbol: &str) -> (r: Vec<u8>)
        ensures
            r@ == json_record_with(*self, symbol.spec_bytes()),
    {
        let mut out: Vec<u8> = Vec::new();
        push_str(&mut out, "{\"symbol\":");
        push_str(&mut out, symbol);
        push_str(&mut out, ",\"open\":\"");
        push_fixed6(&mut out, self.open);
        push_str(&mut out, "\",\"high\":\"");
        push_fixed6(&mut out, self.high);
        push_str(&mut out, "\",\"low\":");
        push_short_number(&mut out, self.low);
        push_str(&mut out, ",\"close\":\"");
        push_fixed6(&mut out, self.close);
        push_str(&mut out, "\",\"timestamp\":");
        push_decimal(&mut out, self.timestamp_end);
        push_str(&mut out, "}");
        proof {
            assert(out@ =~= json_record_with(*self, symbol.spec_bytes()));
        }
        out
    }

    /// The output record of this snapshot as one line of JSON, without the line
    /// break: its ticker as a JSON string, or `null` without one.
    pub fn to_json(&self) -> (r: Vec<u8>)
        ensures
            r@ == json_record(*self),
    {
        match &self.ticker {
            Some(t) => {
                let q = quote_json(t.as_str());
                self.record_with_symbol(q.as_str())
            },
            None => self.record_with_symbol("null"),
        }
    }
}

} // verus!
