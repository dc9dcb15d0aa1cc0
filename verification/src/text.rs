//! Text-building helpers shared by the encoders: decimal rendering of
//! integers, boolean text, and separator-joined lists.

use vstd::prelude::*;
use vstd::string::StringExecFns;

verus! {

/// The decimal digit character for `d` (meaningful for `0 <= d <= 9`).
pub open spec fn spec_digit_char(d: nat) -> char {
    if d == 0 {
        '0'
    } else if d == 1 {
        '1'
    } else if d == 2 {
        '2'
    } else if d == 3 {
        '3'
    } else if d == 4 {
        '4'
    } else if d == 5 {
        '5'
    } else if d == 6 {
        '6'
    } else if d == 7 {
        '7'
    } else if d == 8 {
        '8'
    } else {
        '9'
    }
}

/// The decimal digits of `n`, most significant first, with no sign and no
/// leading zeros (except for `n == 0`, which is the single digit `0`).
pub open spec fn spec_dec_digits(n: nat) -> Seq<char>
    decreases n,
{
    if n < 10 {
        seq![spec_digit_char(n)]
    } else {
        spec_dec_digits(n / 10).push(spec_digit_char(n % 10))
    }
}

/// The decimal text of a signed integer: a leading `-` for negative values,
/// then the digits of the absolute value.
pub open spec fn spec_i64_str(n: int) -> Seq<char> {
    if n < 0 {
        seq!['-'] + spec_dec_digits((-n) as nat)
    } else {
        spec_dec_digits(n as nat)
    }
}

/// The single decimal digit character of `d`.
fn digit_string(d: u64) -> (r: String)
    requires
        d < 10,
    ensures
        r@ == seq![spec_digit_char(d as nat)],
{
    if d == 0 {
        let s = "0".to_owned();
        proof {
            reveal_strlit("0");
            assert(s@ =~= seq![spec_digit_char(d as nat)]);
        }
        s
    } else if d == 1 {
        let s = "1".to_owned();
        proof {
            reveal_strlit("1");
            assert(s@ =~= seq![spec_digit_char(d as nat)]);
        }
        s
    } else if d == 2 {
        let s = "2".to_owned();
        proof {
            reveal_strlit("2");
            assert(s@ =~= seq![spec_digit_char(d as nat)]);
        }
        s
    } else if d == 3 {
        let s = "3".to_owned();
        proof {
            reveal_strlit("3");
            assert(s@ =~= seq![spec_digit_char(d as nat)]);
        }
        s
    } else if d == 4 {
        let s = "4".to_owned();
        proof {
            reveal_strlit("4");
            assert(s@ =~= seq![spec_digit_char(d as nat)]);
        }
        s
    } else if d == 5 {
        let s = "5".to_owned();
        proof {
            reveal_strlit("5");
            assert(s@ =~= seq![spec_digit_char(d as nat)]);
        }
        s
    } else if d == 6 {
        let s = "6".to_owned();
        proof {
            reveal_strlit("6");
            assert(s@ =~= seq![spec_digit_char(d as nat)]);
        }
        s
    } else if d == 7 {
        let s = "7".to_owned();
        proof {
            reveal_strlit("7");
            assert(s@ =~= seq![spec_digit_char(d as nat)]);
        }
        s
    } else if d == 8 {
        let s = "8".to_owned();
        proof {
            reveal_strlit("8");
            assert(s@ =~= seq![spec_digit_char(d as nat)]);
        }
        s
    } else {
        let s = "9".to_owned();
        proof {
            reveal_strlit("9");
            assert(s@ =~= seq![spec_digit_char(d as nat)]);
        }
        s
    }
}

/// The decimal digits of an unsigned value.
fn u64_to_string(n: u64) -> (r: String)
    ensures
        r@ == spec_dec_digits(n as nat),
    decreases n,
{
    if n < 10 {
        digit_string(n)
    } else {
        let mut s = u64_to_string(n / 10);
        let d = digit_string(n % 10);
        s.append(d.as_str());
        proof {
            assert(s@ =~= spec_dec_digits(n as nat));
        }
        s
    }
}

/// Renders a signed integer as its decimal text, with a leading `-` when
/// the value is negative.
pub fn i64_to_string(n: i64) -> (r: String)
    ensures
        r@ == spec_i64_str(n as int),
{
    if n >= 0 {
        u64_to_string(n as u64)
    } else {
        let m: u64 = (-(n as i128)) as u64;
        proof {
            assert(m as nat == (-(n as int)) as nat);
        }
        let mut s = "-".to_owned();
        proof {
            reveal_strlit("-");
            assert(s@ =~= seq!['-']);
        }
        let d = u64_to_string(m);
        s.append(d.as_str());
        proof {
            assert(s@ =~= spec_i64_str(n as int));
        }
        s
    }
}

/// The boolean's text form: `true` or `false`.
pub open spec fn spec_bool_str(b: bool) -> Seq<char> {
    if b {
        seq!['t', 'r', 'u', 'e']
    } else {
        seq!['f', 'a', 'l', 's', 'e']
    }
}

/// Renders a boolean as `"true"` or `"false"`.
pub fn bool_to_string(b: bool) -> (r: String)
    ensures
        r@ == spec_bool_str(b),
{
    if b {
        let s = "true".to_owned();
        proof {
            reveal_strlit("true");
            assert(s@ =~= spec_bool_str(true));
        }
        s
    } else {
        let s = "false".to_owned();
        proof {
            reveal_strlit("false");
            assert(s@ =~= spec_bool_str(false));
        }
        s
    }
}

/// `parts` joined by the separator `sep`, in order: empty for no parts,
/// and no separator before the first part.
pub open spec fn spec_join(parts: Seq<Seq<char>>, sep: Seq<char>) -> Seq<char>
    decreases parts.len(),
{
    if parts.len() == 0 {
        Seq::empty()
    } else if parts.len() == 1 {
        parts[0]
    } else {
        spec_join(parts.drop_last(), sep) + sep + parts.last()
    }
}

/// Joins the parts with `sep` between consecutive parts.
pub fn join_strings(parts: &Vec<String>, sep: &str) -> (r: String)
    ensures
        r@ == spec_join(parts.deep_view(), sep@),
{
    let mut r = String::new();
    let mut i: usize = 0;
    while i < parts.len()
        invariant
            i <= parts.len(),
            r@ == spec_join(parts.deep_view().take(i as int), sep@),
        decreases parts.len() - i,
    {
        if i > 0 {
            r.append(sep);
        }
        r.append(parts[i].as_str());
        proof {
            let dv = parts.deep_view();
            assert(dv.take(i + 1).drop_last() =~= dv.take(i as int));
            assert(dv.take(i + 1).last() == dv[i as int]);
        }
        i = i + 1;
    }
    proof {
        assert(parts.deep_view().take(parts.len() as int) =~= parts.deep_view());
    }
    r
}

/// Appends every element of `src` onto the end of `dst`, in order.
pub fn append_all(dst: &mut Vec<String>, src: &Vec<String>)
    ensures
        final(dst)@ == old(dst)@ + src@,
{
    let mut i: usize = 0;
    while i < src.len()
        invariant
            i <= src.len(),
            dst@ == old(dst)@ + src@.take(i as int),
        decreases src.len() - i,
    {
        dst.push(src[i].clone());
        proof {
            assert(old(dst)@ + src@.take(i + 1) =~= (old(dst)@ + src@.take(i as int)).push(
                src@[i as int],
            ));
        }
        i = i + 1;
    }
    proof {
        assert(src@.take(src.len() as int) =~= src@);
    }
}

} // verus!
