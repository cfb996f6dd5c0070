//! Decimal rendering of the integer and fixed-point gauges that the wire
//! payload carries: plain integers, and values scaled by 10, 100 or 1000
//! rendered with one, two or three fraction digits.
use vstd::prelude::*;

verus! {

/// Decimal digits of `n`, most significant first, as ASCII bytes.
pub open spec fn dec_spec(n: nat) -> Seq<u8>
    decreases n,
{
    if n < 10 {
        seq![(48 + n) as u8]
    } else {
        dec_spec(n / 10).push((48 + n % 10) as u8)
    }
}

/// Rendering of a value scaled by 10: integer part, a dot, one fraction digit.
pub open spec fn fixed1_spec(v: nat) -> Seq<u8> {
    dec_spec(v / 10) + seq![46u8, (48 + v % 10) as u8]
}

/// Rendering of a value scaled by 100: integer part, a dot, two fraction digits.
pub open spec fn fixed2_spec(v: nat) -> Seq<u8> {
    dec_spec(v / 100) + seq![46u8, (48 + (v / 10) % 10) as u8, (48 + v % 10) as u8]
}

/// Rendering of a value scaled by 1000: integer part, a dot, three fraction digits.
pub open spec fn fixed3_spec(v: nat) -> Seq<u8> {
    dec_spec(v / 1000) + seq![
        46u8,
        (48 + (v / 100) % 10) as u8,
        (48 + (v / 10) % 10) as u8,
        (48 + v % 10) as u8,
    ]
}

/// Append the decimal digits of `n` to `out`.
pub fn push_dec(out: &mut Vec<u8>, n: u64)
    ensures
        final(out)@ == old(out)@ + dec_spec(n as nat),
    decreases n,
{
    if n < 10 {
        out.push((48 + n) as u8);
        proof {
            assert(out@ =~= old(out)@ + dec_spec(n as nat));
        }
    } else {
        push_dec(out, n / 10);
        out.push((48 + n % 10) as u8);
        proof {
            assert(out@ =~= old(out)@ + dec_spec(n as nat));
        }
    }
}

/// Append `v` scaled by 10, rendered with one fraction digit.
pub fn push_fixed1(out: &mut Vec<u8>, v: u64)
    ensures
        final(out)@ == old(out)@ + fixed1_spec(v as nat),
{
    push_dec(out, v / 10);
    out.push(46u8);
    out.push((48 + v % 10) as u8);
    proof {
        assert(out@ =~= old(out)@ + fixed1_spec(v as nat));
    }
}

/// Append `v` scaled by 100, rendered with two fraction digits.
pub fn push_fixed2(out: &mut Vec<u8>, v: u64)
    ensures
        final(out)@ == old(out)@ + fixed2_spec(v as nat),
{
    push_dec(out, v / 100);
    out.push(46u8);
    out.push((48 + (v / 10) % 10) as u8);
    out.push((48 + v % 10) as u8);
    proof {
        assert(out@ =~= old(out)@ + fixed2_spec(v as nat));
    }
}

/// Append `v` scaled by 1000, rendered with three fraction digits.
pub fn push_fixed3(out: &mut Vec<u8>, v: u64)
    ensures
        final(out)@ == old(out)@ + fixed3_spec(v as nat),
{
    push_dec(out, v / 1000);
    out.push(46u8);
    out.push((48 + (v / 100) % 10) as u8);
    out.push((48 + (v / 10) % 10) as u8);
    out.push((48 + v % 10) as u8);
    proof {
        assert(out@ =~= old(out)@ + fixed3_spec(v as nat));
    }
}

/// Append every byte of `s` to `out`.
pub fn push_all(out: &mut Vec<u8>, s: &Vec<u8>)
    ensures
        final(out)@ == old(out)@ + s@,
{
    let mut i: usize = 0;
    while i < s.len()
        invariant
            i <= s@.len(),
            out@ == old(out)@ + s@.take(i as int),
        decreases s@.len() - i,
    {
        out.push(s[i]);
        proof {
            assert(out@ =~= old(out)@ + s@.take(i + 1));
        }
        i += 1;
    }
    proof {
        assert(out@ =~= old(out)@ + s@);
    }
}

} // verus!
