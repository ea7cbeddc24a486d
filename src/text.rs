use vstd::prelude::*;

verus! {

/// Relies on `String::push`: appends one character at the end.
#[verifier::external_body]
pub(crate) fn push_char(s: &mut String, c: char)
    ensures
        final(s)@ == old(s)@.push(c),
{
    s.push(c);
}

/// The character of a decimal digit.
pub open spec fn digit_char(d: int) -> char {
    (48 + d) as char
}

/// The decimal digits of `v`, most significant first, with no leading zero
/// (empty for zero).
pub open spec fn decimal_digits(v: nat) -> Seq<char>
    decreases v,
{
    if v == 0 {
        Seq::empty()
    } else {
        decimal_digits(v / 10).push(digit_char((v % 10) as int))
    }
}

/// `v` in decimal, left-padded with zeros to at least `width` digits.
pub open spec fn zero_padded(v: nat, width: nat) -> Seq<char> {
    let d = decimal_digits(v);
    if d.len() < width {
        Seq::new((width - d.len()) as nat, |i: int| '0') + d
    } else {
        d
    }
}

pub(crate) fn digit(d: u64) -> (r: char)
    requires
        d < 10,
    ensures
        r == digit_char(d as int),
{
    ((48 + d) as u8) as char
}

/// Appends `v` in decimal, left-padded with zeros to at least `width` digits.
pub(crate) fn push_zero_padded(s: &mut String, v: u64, width: usize)
    requires
        width <= 20,
    ensures
        final(s)@ == old(s)@ + zero_padded(v as nat, width as nat),
{
    // The digits, least significant first.
    let mut rev: Vec<char> = Vec::new();
    let mut rest = v;
    while rest > 0
        invariant
            rev@.len() + decimal_digits(rest as nat).len() == decimal_digits(v as nat).len(),
            decimal_digits(v as nat) == decimal_digits(rest as nat) + rev@.reverse(),
        decreases rest,
    {
        let d = rest % 10;
        let c = digit(d);
        proof {
            let r = rest as nat;
            assert(decimal_digits(r) == decimal_digits(r / 10).push(digit_char((r % 10) as int)));
            assert(rev@.push(c).reverse() =~= seq![c] + rev@.reverse());
            assert(decimal_digits(r / 10) + rev@.push(c).reverse() =~= decimal_digits(r / 10).push(c)
                + rev@.reverse());
        }
        rev.push(c);
        rest = rest / 10;
    }
    proof {
        assert(decimal_digits(0) == Seq::<char>::empty());
        assert(decimal_digits(v as nat) =~= rev@.reverse());
    }
    let ghost start = s@;
    let len = rev.len();
    let mut pad: usize = 0;
    if len < width {
        while pad < width - len
            invariant
                len < width,
                pad <= width - len,
                s@ == start + Seq::new(pad as nat, |i: int| '0'),
            decreases width - len - pad,
        {
            push_char(s, '0');
            proof {
                assert(start + Seq::new((pad + 1) as nat, |i: int| '0') =~= start + Seq::new(
                    pad as nat,
                    |i: int| '0',
                ).push('0'));
            }
            pad = pad + 1;
        }
    }
    let ghost padded = s@;
    let mut i: usize = len;
    while i > 0
        invariant
            i <= len,
            len == rev@.len(),
            s@ == padded + rev@.reverse().subrange(0, (len - i) as int),
        decreases i,
    {
        i = i - 1;
        let c = rev[i];
        proof {
            assert(rev@.reverse()[(len - 1 - i) as int] == c);
            assert(rev@.reverse().subrange(0, (len - i) as int) =~= rev@.reverse().subrange(
                0,
                (len - 1 - i) as int,
            ).push(c));
        }
        push_char(s, c);
    }
    proof {
        assert(rev@.reverse().subrange(0, len as int) =~= rev@.reverse());
        if len < width {
            assert(pad == width - len);
        } else {
            assert(start + Seq::new(0, |i: int| '0') =~= start);
        }
        assert(s@ =~= old(s)@ + zero_padded(v as nat, width as nat));
    }
}

} // verus!
