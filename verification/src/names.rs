//! Synthesized filenames: a reserved prefix plus a decimal counter,
//! and the proof that two distinct counters never give the same name.

use vstd::prelude::*;
use vstd::string::StringExecFns;

verus! {

/// The digit character for a value below ten.
pub open spec fn digit_char(d: nat) -> char {
    if d == 0 {
        '0'
    } else if d == 1 {
        '1'
    } else if d == 2 {
        '2'
    } else if d == 3 {
        '3'
    } else if d == 4 {
        '4'
    } else if d == 5 {
        '5'
    } else if d == 6 {
        '6'
    } else if d == 7 {
        '7'
    } else if d == 8 {
        '8'
    } else {
        '9'
    }
}

/// The decimal rendering of a number, most significant digit first,
/// with no leading zeros (zero itself renders as one digit).
pub open spec fn decimal(n: nat) -> Seq<char>
    decreases n,
{
    if n < 10 {
        seq![digit_char(n)]
    } else {
        decimal(n / 10).push(digit_char(n % 10))
    }
}

/// The reserved prefix of a synthesized filename.
pub open spec fn synth_prefix() -> Seq<char> {
    seq!['u', 'n', 'k', '_']
}

/// The filename synthesized for a locator without a usable path
/// segment, from the construction pass's counter.
pub open spec fn synth_name(c: nat) -> Seq<char> {
    synth_prefix() + decimal(c)
}

/// Distinct digits render as distinct characters.
proof fn lemma_digit_char_injective(a: nat, b: nat)
    requires
        a < 10,
        b < 10,
        digit_char(a) == digit_char(b),
    ensures
        a == b,
{
}

/// A one-digit rendering means the value is below ten.
proof fn lemma_decimal_len(n: nat)
    ensures
        decimal(n).len() >= 1,
        (n < 10) <==> (decimal(n).len() == 1),
    decreases n,
{
    if n >= 10 {
        lemma_decimal_len(n / 10);
    }
}

/// Distinct numbers have distinct decimal renderings.
proof fn lemma_decimal_injective(a: nat, b: nat)
    requires
        decimal(a) == decimal(b),
    ensures
        a == b,
    decreases a + b,
{
    if a < 10 && b < 10 {
        assert(decimal(a) == seq![digit_char(a)]);
        assert(decimal(b) == seq![digit_char(b)]);
        assert(digit_char(a) == decimal(a)[0]);
        assert(digit_char(b) == decimal(b)[0]);
        lemma_digit_char_injective(a, b);
    } else if a >= 10 && b >= 10 {
        let da = decimal(a / 10);
        let db = decimal(b / 10);
        assert(decimal(a) == da.push(digit_char(a % 10)));
        assert(decimal(b) == db.push(digit_char(b % 10)));
        assert(digit_char(a % 10) == decimal(a).last());
        assert(digit_char(b % 10) == decimal(b).last());
        lemma_digit_char_injective(a % 10, b % 10);
        assert(da =~= decimal(a).drop_last());
        assert(db =~= decimal(b).drop_last());
        lemma_decimal_injective(a / 10, b / 10);
    } else {
        lemma_decimal_len(a);
        lemma_decimal_len(b);
        assert(decimal(a).len() != decimal(b).len());
    }
}

/// Distinct counters synthesize distinct filenames.
pub proof fn lemma_synth_name_injective(a: nat, b: nat)
    requires
        synth_name(a) == synth_name(b),
    ensures
        a == b,
{
    assert(decimal(a) =~= synth_name(a).skip(4));
    assert(decimal(b) =~= synth_name(b).skip(4));
    lemma_decimal_injective(a, b);
}

/// A synthesized filename always starts with the reserved prefix.
pub proof fn lemma_synth_name_prefix(c: nat)
    ensures
        synth_name(c).len() > 4,
        synth_name(c).take(4) == synth_prefix(),
    decreases c,
{
    lemma_decimal_len(c);
    assert(synth_name(c).take(4) =~= synth_prefix());
}

/// The digit character of a value below ten, as a one-character string.
fn digit_str(d: u64) -> (r: &'static str)
    requires
        d < 10,
    ensures
        r@ == seq![digit_char(d as nat)],
{
    proof {
        reveal_strlit("0");
        reveal_strlit("1");
        reveal_strlit("2");
        reveal_strlit("3");
        reveal_strlit("4");
        reveal_strlit("5");
        reveal_strlit("6");
        reveal_strlit("7");
        reveal_strlit("8");
        reveal_strlit("9");
    }
    if d == 0 {
        proof { assert("0"@ =~= seq![digit_char(d as nat)]); }
        "0"
    } else if d == 1 {
        proof { assert("1"@ =~= seq![digit_char(d as nat)]); }
        "1"
    } else if d == 2 {
        proof { assert("2"@ =~= seq![digit_char(d as nat)]); }
        "2"
    } else if d == 3 {
        proof { assert("3"@ =~= seq![digit_char(d as nat)]); }
        "3"
    } else if d == 4 {
        proof { assert("4"@ =~= seq![digit_char(d as nat)]); }
        "4"
    } else if d == 5 {
        proof { assert("5"@ =~= seq![digit_char(d as nat)]); }
        "5"
    } else if d == 6 {
        proof { assert("6"@ =~= seq![digit_char(d as nat)]); }
        "6"
    } else if d == 7 {
        proof { assert("7"@ =~= seq![digit_char(d as nat)]); }
        "7"
    } else if d == 8 {
        proof { assert("8"@ =~= seq![digit_char(d as nat)]); }
        "8"
    } else {
        proof { assert("9"@ =~= seq![digit_char(d as nat)]); }
        "9"
    }
}

/// Appends the decimal rendering of `n` to `out`.
fn push_decimal(n: u64, out: &mut String)
    ensures
        final(out)@ == old(out)@ + decimal(n as nat),
    decreases n,
{
    if n >= 10 {
        push_decimal(n / 10, out);
    }
    let d = digit_str(n % 10);
    out.append(d);
    proof {
        if n < 10 {
            assert(out@ =~= old(out)@ + decimal(n as nat));
        } else {
            assert(decimal(n as nat) == decimal(n as nat / 10).push(digit_char(
                n as nat % 10,
            )));
            assert(out@ =~= old(out)@ + decimal(n as nat));
        }
    }
}

/// Builds the filename synthesized for counter value `c`.
pub fn synth_filename(c: u64) -> (r: String)
    ensures
        r@ == synth_name(c as nat),
{
    let mut s = String::from_str("unk_");
    proof {
        reveal_strlit("unk_");
        assert(s@ =~= synth_prefix());
    }
    push_decimal(c, &mut s);
    s
}

} // verus!
