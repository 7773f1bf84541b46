use vstd::prelude::*;
use vstd::string::StrSliceExecFns;

verus! {

/// Relies on `String::push`: appends the given character to the end of the
/// string.
#[verifier::external_body]
pub(crate) fn push_char(s: &mut String, c: char)
    ensures
        final(s)@ == old(s)@.push(c),
{
    s.push(c);
}

/// Character-by-character equality of two string slices.
pub fn str_eq(a: &str, b: &str) -> (r: bool)
    ensures
        r == (a@ == b@),
{
    let la = a.unicode_len();
    let lb = b.unicode_len();
    if la != lb {
        return false;
    }
    let mut i: usize = 0;
    while i < la
        invariant
            la == a@.len(),
            la == b@.len(),
            i <= la,
            forall|j: int| 0 <= j < i ==> a@[j] == b@[j],
        decreases la - i,
    {
        if a.get_char(i) != b.get_char(i) {
            return false;
        }
        i += 1;
    }
    proof {
        assert(a@ =~= b@);
    }
    true
}

/// The characters of `s` with every line break removed.
pub open spec fn without_newlines(s: Seq<char>) -> Seq<char> {
    s.filter(|c: char| c != '\n')
}

/// Returns a copy of `s` in which every line break character has been
/// removed, so that one subtitle line reaches the backend as one piece.
pub fn strip_newlines(s: &str) -> (r: String)
    ensures
        r@ == without_newlines(s@),
{
    broadcast use vstd::seq_lib::group_filter_ensures;

    let n = s.unicode_len();
    let mut r = String::new();
    let mut i: usize = 0;
    while i < n
        invariant
            n == s@.len(),
            i <= n,
            r@ == without_newlines(s@.take(i as int)),
        decreases n - i,
    {
        let c = s.get_char(i);
        proof {
            reveal_with_fuel(Seq::filter, 2);
            assert(s@.take(i + 1) =~= s@.take(i as int) + seq![s@[i as int]]);
            Seq::<char>::filter_distributes_over_add(
                s@.take(i as int),
                seq![s@[i as int]],
                |c: char| c != '\n',
            );
            let single = seq![s@[i as int]];
            assert(single.drop_last() =~= Seq::<char>::empty());
            assert(single.last() == s@[i as int]);
            if s@[i as int] != '\n' {
                assert(single.filter(|c: char| c != '\n') =~= single);
            } else {
                assert(single.filter(|c: char| c != '\n') =~= Seq::<char>::empty());
            }
        }
        if c != '\n' {
            push_char(&mut r, c);
            proof {
                assert(r@ =~= without_newlines(s@.take(i + 1)));
            }
        } else {
            proof {
                assert(r@ =~= without_newlines(s@.take(i + 1)));
            }
        }
        i += 1;
    }
    proof {
        assert(s@.take(n as int) =~= s@);
    }
    r
}

/// The decimal digit character for `d`.
pub open spec fn digit_char(d: nat) -> char {
    if d == 0 {
        '0'
    } else if d == 1 {
        '1'
    } else if d == 2 {
        '2'
    } else if d == 3 {
        '3'
    } else if d == 4 {
        '4'
    } else if d == 5 {
        '5'
    } else if d == 6 {
        '6'
    } else if d == 7 {
        '7'
    } else if d == 8 {
        '8'
    } else {
        '9'
    }
}

/// The usual decimal rendering of `n`, most significant digit first, with no
/// leading zeroes except for `n == 0` itself.
pub open spec fn dec_str(n: nat) -> Seq<char>
    decreases n,
{
    if n < 10 {
        seq![digit_char(n)]
    } else {
        dec_str(n / 10).push(digit_char(n % 10))
    }
}

pub(crate) fn digit_to_char(d: u64) -> (c: char)
    requires
        d < 10,
    ensures
        c == digit_char(d as nat),
{
    if d == 0 {
        '0'
    } else if d == 1 {
        '1'
    } else if d == 2 {
        '2'
    } else if d == 3 {
        '3'
    } else if d == 4 {
        '4'
    } else if d == 5 {
        '5'
    } else if d == 6 {
        '6'
    } else if d == 7 {
        '7'
    } else if d == 8 {
        '8'
    } else {
        '9'
    }
}

/// Appends the decimal rendering of `n` to `s`.
pub(crate) fn push_u64(s: &mut String, n: u64)
    ensures
        final(s)@ == old(s)@ + dec_str(n as nat),
    decreases n,
{
    if n >= 10 {
        push_u64(s, n / 10);
        push_char(s, digit_to_char(n % 10));
        proof {
            assert(s@ =~= old(s)@ + dec_str(n as nat));
        }
    } else {
        push_char(s, digit_to_char(n));
        proof {
            assert(s@ =~= old(s)@ + dec_str(n as nat));
        }
    }
}

} // verus!
