//! Rendering a trajectory as comma-separated text: a header row
//! `t,v,x`, then one line per sample with the time, the velocity and
//! the position, each printed exactly as a sign, a decimal integer
//! part, a point, and nine decimal fraction digits rounded toward
//! zero.

use vstd::prelude::*;
use vstd::string::StringExecFns;

use crate::fixed::{iabs, mag_u128, Fixed, SCALE};
use crate::rk4::Sample;

verus! {

/// The decimal digit character for `d`.
pub open spec fn digit(d: int) -> char {
    if d == 0 {
        '0'
    } else if d == 1 {
        '1'
    } else if d == 2 {
        '2'
    } else if d == 3 {
        '3'
    } else if d == 4 {
        '4'
    } else if d == 5 {
        '5'
    } else if d == 6 {
        '6'
    } else if d == 7 {
        '7'
    } else if d == 8 {
        '8'
    } else {
        '9'
    }
}

/// The decimal digits of `n`, most significant first, without
/// leading zeros.
pub open spec fn dec_str(n: nat) -> Seq<char>
    decreases n,
{
    if n < 10 {
        seq![digit(n as int)]
    } else {
        dec_str(n / 10) + seq![digit((n % 10) as int)]
    }
}

/// The last `w` decimal digits of `n`, zero padded to width `w`,
/// most significant first.
pub open spec fn frac_str(n: nat, w: nat) -> Seq<char>
    decreases w,
{
    if w == 0 {
        Seq::empty()
    } else {
        frac_str(n / 10, (w - 1) as nat) + seq![digit((n % 10) as int)]
    }
}

/// The text of a nonnegative raw value `m`: the integer part in
/// decimal, a point, and the first nine decimal digits of the
/// fraction, rounded toward zero.
pub open spec fn mag_str(m: int) -> Seq<char>
    recommends
        0 <= m,
{
    dec_str((m / (SCALE as int)) as nat) + seq!['.'] + frac_str(
        ((m % (SCALE as int)) * 1000000000 / (SCALE as int)) as nat,
        9,
    )
}

/// The text of a fixed-point value with raw representation `v`: a
/// minus sign for a negative value, then the text of its magnitude.
pub open spec fn fx_str(v: int) -> Seq<char> {
    if v < 0 {
        seq!['-'] + mag_str(-v)
    } else {
        mag_str(v)
    }
}

/// One line of the table: time, velocity, position, separated by
/// commas and closed by a newline.  The state vector is
/// `[position, velocity]`.
pub open spec fn csv_line(smp: Sample) -> Seq<char>
    recommends
        smp.state@.len() == 2,
{
    fx_str(smp.t@) + seq![','] + fx_str(smp.state@[1]@) + seq![','] + fx_str(smp.state@[0]@)
        + seq!['\n']
}

/// The lines of the table, one per sample, in trajectory order.
pub open spec fn csv_body(tr: Seq<Sample>) -> Seq<char>
    decreases tr.len(),
{
    if tr.len() == 0 {
        Seq::empty()
    } else {
        csv_body(tr.drop_last()) + csv_line(tr.last())
    }
}

/// The whole table: the header row, then the lines.
pub open spec fn csv_text(tr: Seq<Sample>) -> Seq<char> {
    "t,v,x\n"@ + csv_body(tr)
}

/// The one-character text of a decimal digit.
fn digit_str(d: u64) -> (r: &'static str)
    requires
        d < 10,
    ensures
        r@ == seq![digit(d as int)],
{
    match d {
        0u64 => {
            proof {
                reveal_strlit("0");
                assert("0"@ =~= seq![digit(0int)]);
            }
            "0"
        },
        1u64 => {
            proof {
                reveal_strlit("1");
                assert("1"@ =~= seq![digit(1int)]);
            }
            "1"
        },
        2u64 => {
            proof {
                reveal_strlit("2");
                assert("2"@ =~= seq![digit(2int)]);
            }
            "2"
        },
        3u64 => {
            proof {
                reveal_strlit("3");
                assert("3"@ =~= seq![digit(3int)]);
            }
            "3"
        },
        4u64 => {
            proof {
                reveal_strlit("4");
                assert("4"@ =~= seq![digit(4int)]);
            }
            "4"
        },
        5u64 => {
            proof {
                reveal_strlit("5");
                assert("5"@ =~= seq![digit(5int)]);
            }
            "5"
        },
        6u64 => {
            proof {
                reveal_strlit("6");
                assert("6"@ =~= seq![digit(6int)]);
            }
            "6"
        },
        7u64 => {
            proof {
                reveal_strlit("7");
                assert("7"@ =~= seq![digit(7int)]);
            }
            "7"
        },
        8u64 => {
            proof {
                reveal_strlit("8");
                assert("8"@ =~= seq![digit(8int)]);
            }
            "8"
        },
        _ => {
            proof {
                reveal_strlit("9");
                assert("9"@ =~= seq![digit(d as int)]);
            }
            "9"
        },
    }
}

/// Appends the decimal digits of `n` to `out`.
fn push_dec(out: &mut String, n: u64)
    ensures
        final(out)@ == old(out)@ + dec_str(n as nat),
    decreases n,
{
    if n < 10 {
        out.append(digit_str(n));
    } else {
        push_dec(out, n / 10);
        out.append(digit_str(n % 10));
        proof {
            assert(old(out)@ + dec_str((n / 10) as nat) + seq![digit((n % 10) as int)] =~= old(
                out,
            )@ + dec_str(n as nat));
        }
    }
}

/// Appends the last `w` decimal digits of `n`, zero padded, to `out`.
fn push_frac(out: &mut String, n: u64, w: u64)
    ensures
        final(out)@ == old(out)@ + frac_str(n as nat, w as nat),
    decreases w,
{
    if w > 0 {
        push_frac(out, n / 10, w - 1);
        out.append(digit_str(n % 10));
        proof {
            assert(old(out)@ + frac_str((n / 10) as nat, (w - 1) as nat) + seq![digit(
                (n % 10) as int,
            )] =~= old(out)@ + frac_str(n as nat, w as nat));
        }
    } else {
        proof {
            assert(old(out)@ + frac_str(n as nat, 0) =~= old(out)@);
        }
    }
}

/// Appends the text of one fixed-point value to `out`.
fn push_fixed(out: &mut String, v: Fixed)
    ensures
        final(out)@ == old(out)@ + fx_str(v@),
{
    let ghost at_start = out@;
    if v.raw < 0 {
        out.append("-");
    }
    let ghost after_sign = out@;
    let m: u128 = mag_u128(v.raw);
    let ip: u64 = (m / 4294967296u128) as u64;
    let fr: u64 = (m % 4294967296u128) as u64;
    let fd: u64 = fr * 1000000000u64 / 4294967296u64;
    push_dec(out, ip);
    out.append(".");
    push_frac(out, fd, 9);
    proof {
        reveal_strlit("-");
        reveal_strlit(".");
        assert(ip as nat == (iabs(v@) / (SCALE as int)) as nat);
        assert(fd as nat == ((iabs(v@) % (SCALE as int)) * 1000000000 / (SCALE as int)) as nat);
        assert(out@ =~= after_sign + mag_str(iabs(v@)));
        if v.raw < 0 {
            assert(after_sign =~= at_start + seq!['-']);
            assert(out@ =~= at_start + fx_str(v@));
        } else {
            assert(out@ =~= at_start + fx_str(v@));
        }
    }
}

/// The comma-separated text of a trajectory of the two-component
/// oscillator: the header `t,v,x`, then one line per sample, in
/// order.
pub fn write_csv(samples: &Vec<Sample>) -> (s: String)
    requires
        forall|i: int| 0 <= i < samples@.len() ==> (#[trigger] samples@[i]).state@.len() == 2,
    ensures
        s@ == csv_text(samples@),
{
    let mut out = String::new();
    out.append("t,v,x\n");
    let mut i: usize = 0;
    while i < samples.len()
        invariant
            i <= samples@.len(),
            forall|j: int| 0 <= j < samples@.len() ==> (#[trigger] samples@[j]).state@.len() == 2,
            out@ == csv_text(samples@.take(i as int)),
        decreases samples@.len() - i,
    {
        let ghost at_start = out@;
        let smp = &samples[i];
        push_fixed(&mut out, smp.t);
        out.append(",");
        push_fixed(&mut out, smp.state[1]);
        out.append(",");
        push_fixed(&mut out, smp.state[0]);
        out.append("\n");
        proof {
            reveal_strlit(",");
            reveal_strlit("\n");
            assert(out@ =~= at_start + csv_line(samples@[i as int]));
            assert(samples@.take(i + 1).drop_last() =~= samples@.take(i as int));
            assert(samples@.take(i + 1).last() == samples@[i as int]);
            assert(out@ =~= csv_text(samples@.take(i + 1)));
        }
        i = i + 1;
    }
    proof {
        assert(samples@.take(samples@.len() as int) =~= samples@);
    }
    out
}

} // verus!
