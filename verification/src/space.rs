//! A running total of reclaimed bytes, rendered as a human-scaled magnitude.

use vstd::prelude::*;
use vstd::string::StringExecFns;

verus! {

/// Addition on byte totals that stops at the counter's ceiling instead of
/// wrapping around.
pub open spec fn sat_add(total: u64, data: u64) -> u64 {
    if total + data <= u64::MAX {
        (total + data) as u64
    } else {
        u64::MAX
    }
}

/// The decimal digit `d` as a character; meaningful for `d < 10`.
pub open spec fn digit_char(d: nat) -> char {
    if d == 0 {
        '0'
    } else if d == 1 {
        '1'
    } else if d == 2 {
        '2'
    } else if d == 3 {
        '3'
    } else if d == 4 {
        '4'
    } else if d == 5 {
        '5'
    } else if d == 6 {
        '6'
    } else if d == 7 {
        '7'
    } else if d == 8 {
        '8'
    } else {
        '9'
    }
}

/// The decimal digits of `n`, most significant first, with no leading zeroes
/// (zero itself is a single '0').
pub open spec fn dec_str(n: nat) -> Seq<char>
    decreases n,
{
    if n < 10 {
        seq![digit_char(n)]
    } else {
        dec_str(n / 10).push(digit_char(n % 10))
    }
}

/// `n` (below 1000) as exactly three decimal digits, zero-padded on the left.
pub open spec fn pad3(n: nat) -> Seq<char> {
    if n < 10 {
        seq!['0', '0'] + dec_str(n)
    } else if n < 100 {
        seq!['0'] + dec_str(n)
    } else {
        dec_str(n)
    }
}

/// 1024 raised to `u`: the number of bytes in one step of unit `u`.
pub open spec fn pow1024(u: nat) -> nat
    decreases u,
{
    if u == 0 {
        1
    } else {
        1024 * pow1024((u - 1) as nat)
    }
}

/// The index of the largest unit (0 bytes, 1 KB, 2 MB, 3 GB, 4 TB) whose
/// scaled magnitude for a total of `t` bytes is at least 1; bytes for zero.
pub open spec fn unit_index(t: nat) -> nat {
    if t < 1024 {
        0
    } else if t < 1048576 {
        1
    } else if t < 1073741824 {
        2
    } else if t < 1099511627776 {
        3
    } else {
        4
    }
}

/// The rendered name of unit `u`, with the separating space.
pub open spec fn unit_suffix(u: nat) -> Seq<char> {
    if u == 0 {
        seq![' ', 'B']
    } else if u == 1 {
        seq![' ', 'K', 'B']
    } else if u == 2 {
        seq![' ', 'M', 'B']
    } else if u == 3 {
        seq![' ', 'G', 'B']
    } else {
        seq![' ', 'T', 'B']
    }
}

/// The fractional part of `t` scaled to unit `u`, in thousandths, truncated.
pub open spec fn frac_millis(t: nat, u: nat) -> nat {
    (t % pow1024(u)) * 1000 / pow1024(u)
}

/// What rendering a total of `t` bytes produces: the whole scaled magnitude in
/// the largest unit that keeps it at least 1, then (for scaled units) a dot and
/// three truncated decimal places, then the unit name.
pub open spec fn render_spec(t: nat) -> Seq<char> {
    let u = unit_index(t);
    if u == 0 {
        dec_str(t) + unit_suffix(0)
    } else {
        dec_str(t / pow1024(u)) + seq!['.'] + pad3(frac_millis(t, u)) + unit_suffix(u)
    }
}

/// The concrete values of `pow1024` for every unit in use.
pub proof fn lemma_pow1024_vals()
    ensures
        pow1024(0) == 1,
        pow1024(1) == 1024,
        pow1024(2) == 1048576,
        pow1024(3) == 1073741824,
        pow1024(4) == 1099511627776,
        pow1024(5) == 1125899906842624,
{
    assert(pow1024(0) == 1);
    assert(pow1024(1) == 1024);
    assert(pow1024(2) == 1048576);
    assert(pow1024(3) == 1073741824);
    assert(pow1024(4) == 1099511627776);
    assert(pow1024(5) == 1125899906842624);
}

/// The chosen unit is the largest whose scaled magnitude is at least 1: the
/// total reaches `pow1024` of its unit, and stays below `pow1024` of the next
/// unit whenever a larger unit exists. A zero total renders as "0 B", and the
/// fractional digits always form a value below 1000.
pub proof fn lemma_render_unit_choice(t: nat)
    ensures
        t > 0 ==> pow1024(unit_index(t)) <= t,
        unit_index(t) < 4 ==> t < pow1024(unit_index(t) + 1),
        unit_index(t) <= 4,
        frac_millis(t, unit_index(t)) < 1000,
        t == 0 ==> render_spec(t) == seq!['0', ' ', 'B'],
{
    lemma_pow1024_vals();
    let u = unit_index(t);
    let p = pow1024(u);
    assert(p >= 1);
    assert(t % p < p) by (nonlinear_arith)
        requires
            p >= 1,
    ;
    assert((t % p) * 1000 / p < 1000) by (nonlinear_arith)
        requires
            p >= 1,
            t % p < p,
    ;
    if t == 0 {
        assert(render_spec(0) =~= seq!['0', ' ', 'B']);
    }
}

fn push_digit(out: &mut String, d: u64)
    requires
        d < 10,
    ensures
        final(out)@ == old(out)@.push(digit_char(d as nat)),
{
    if d == 0 {
        proof {
            reveal_strlit("0");
        }
        out.append("0");
    } else if d == 1 {
        proof {
            reveal_strlit("1");
        }
        out.append("1");
    } else if d == 2 {
        proof {
            reveal_strlit("2");
        }
        out.append("2");
    } else if d == 3 {
        proof {
            reveal_strlit("3");
        }
        out.append("3");
    } else if d == 4 {
        proof {
            reveal_strlit("4");
        }
        out.append("4");
    } else if d == 5 {
        proof {
            reveal_strlit("5");
        }
        out.append("5");
    } else if d == 6 {
        proof {
            reveal_strlit("6");
        }
        out.append("6");
    } else if d == 7 {
        proof {
            reveal_strlit("7");
        }
        out.append("7");
    } else if d == 8 {
        proof {
            reveal_strlit("8");
        }
        out.append("8");
    } else {
        proof {
            reveal_strlit("9");
        }
        out.append("9");
    }
    proof {
        assert(out@ =~= old(out)@.push(digit_char(d as nat)));
    }
}

fn push_dec(out: &mut String, n: u64)
    ensures
        final(out)@ == old(out)@ + dec_str(n as nat),
    decreases n,
{
    if n < 10 {
        push_digit(out, n);
    } else {
        push_dec(out, n / 10);
        push_digit(out, n % 10);
    }
    proof {
        assert(out@ =~= old(out)@ + dec_str(n as nat));
    }
}

fn push_pad3(out: &mut String, n: u64)
    requires
        n < 1000,
    ensures
        final(out)@ == old(out)@ + pad3(n as nat),
{
    if n < 10 {
        proof {
            reveal_strlit("00");
        }
        out.append("00");
        push_digit(out, n);
    } else if n < 100 {
        proof {
            reveal_strlit("0");
        }
        out.append("0");
        push_dec(out, n);
    } else {
        push_dec(out, n);
    }
    proof {
        assert(out@ =~= old(out)@ + pad3(n as nat));
    }
}

fn push_scaled(out: &mut String, t: u64, pow: u64, suffix: &str)
    requires
        unit_index(t as nat) >= 1,
        pow == pow1024(unit_index(t as nat)),
        suffix@ == unit_suffix(unit_index(t as nat)),
    ensures
        final(out)@ == old(out)@ + render_spec(t as nat),
{
    proof {
        lemma_pow1024_vals();
        assert(pow >= 1);
    }
    let whole = t / pow;
    let rem = t % pow;
    proof {
        assert(rem < pow) by (nonlinear_arith)
            requires
                pow >= 1,
                rem == t % pow,
        ;
        assert((rem as int) * 1000 / (pow as int) < 1000) by (nonlinear_arith)
            requires
                pow >= 1,
                rem < pow,
        ;
        assert((rem as int) * 1000 <= (1099511627776 - 1) * 1000);
    }
    let frac = rem * 1000 / pow;
    push_dec(out, whole);
    proof {
        reveal_strlit(".");
    }
    out.append(".");
    push_pad3(out, frac);
    out.append(suffix);
    proof {
        assert(frac == frac_millis(t as nat, unit_index(t as nat)));
        assert(out@ =~= old(out)@ + render_spec(t as nat));
    }
}

/// Running total of bytes freed so far.
#[derive(Debug)]
pub struct DiskSpace {
    bytes: u64,
}

impl View for DiskSpace {
    type V = u64;

    closed spec fn view(&self) -> u64 {
        self.bytes
    }
}

impl DiskSpace {
    /// A counter that has seen no data yet.
    pub fn new() -> (r: DiskSpace)
        ensures
            r@ == 0,
    {
        DiskSpace { bytes: 0 }
    }

    /// Adds `data` bytes to the total, saturating at the counter's ceiling
    /// rather than wrapping around.
    pub fn add(&mut self, data: u64)
        ensures
            final(self)@ == sat_add(old(self)@, data),
    {
        self.bytes = self.bytes.saturating_add(data);
    }

    /// The exact number of bytes counted so far.
    pub fn total(&self) -> (r: u64)
        ensures
            r == self@,
    {
        self.bytes
    }

    /// The total as text, scaled to the largest unit where the magnitude stays
    /// at least 1 ("0 B" for an empty counter), with three decimal places for
    /// every unit above bytes.
    pub fn render(&self) -> (r: String)
        ensures
            r@ == render_spec(self@ as nat),
    {
        let t = self.bytes;
        proof {
            lemma_pow1024_vals();
        }
        let mut out = String::new();
        if t < 1024 {
            push_dec(&mut out, t);
            proof {
                reveal_strlit(" B");
                assert(" B"@ =~= unit_suffix(0));
            }
            out.append(" B");
            proof {
                assert(out@ =~= render_spec(t as nat));
            }
        } else if t < 1048576 {
            proof {
                reveal_strlit(" KB");
                assert(" KB"@ =~= unit_suffix(1));
            }
            push_scaled(&mut out, t, 1024, " KB");
        } else if t < 1073741824 {
            proof {
                reveal_strlit(" MB");
                assert(" MB"@ =~= unit_suffix(2));
            }
            push_scaled(&mut out, t, 1048576, " MB");
        } else if t < 1099511627776 {
            proof {
                reveal_strlit(" GB");
                assert(" GB"@ =~= unit_suffix(3));
            }
            push_scaled(&mut out, t, 1073741824, " GB");
        } else {
            proof {
                reveal_strlit(" TB");
                assert(" TB"@ =~= unit_suffix(4));
            }
            push_scaled(&mut out, t, 1099511627776, " TB");
        }
        out
    }
}

impl Default for DiskSpace {
    fn default() -> (r: DiskSpace)
        ensures
            r@ == 0,
    {
        DiskSpace::new()
    }
}

} // verus!
