use vstd::prelude::*;
use vstd::string::StringExecFns;

verus! {

/// The character for one decimal digit value.
pub open spec fn digit_char(d: nat) -> char {
    if d == 0 {
        '0'
    } else if d == 1 {
        '1'
    } else if d == 2 {
        '2'
    } else if d == 3 {
        '3'
    } else if d == 4 {
        '4'
    } else if d == 5 {
        '5'
    } else if d == 6 {
        '6'
    } else if d == 7 {
        '7'
    } else if d == 8 {
        '8'
    } else {
        '9'
    }
}

/// The usual decimal rendering of a natural number, most significant digit
/// first, with no leading zeros (and zero rendered as "0").
pub open spec fn dec_rep(n: nat) -> Seq<char>
    decreases n,
{
    if n < 10 {
        seq![digit_char(n)]
    } else {
        dec_rep(n / 10).push(digit_char(n % 10))
    }
}

fn digit_str(d: u64) -> (r: &'static str)
    requires
        d < 10,
    ensures
        r@ =~= seq![digit_char(d as nat)],
{
    proof {
        reveal_strlit("0");
        reveal_strlit("1");
        reveal_strlit("2");
        reveal_strlit("3");
        reveal_strlit("4");
        reveal_strlit("5");
        reveal_strlit("6");
        reveal_strlit("7");
        reveal_strlit("8");
        reveal_strlit("9");
    }
    match d {
        0 => "0",
        1 => "1",
        2 => "2",
        3 => "3",
        4 => "4",
        5 => "5",
        6 => "6",
        7 => "7",
        8 => "8",
        _ => "9",
    }
}

/// Sequence of digit characters for a sequence of digit values.
spec fn digit_chars(ds: Seq<u64>) -> Seq<char> {
    ds.map(|i: int, d: u64| digit_char(d as nat))
}

/// Renders a number in decimal, as `Display` would.
pub fn u64_to_decimal(n: u64) -> (r: String)
    ensures
        r@ == dec_rep(n as nat),
{
    if n == 0 {
        let s = digit_str(0).to_owned();
        return s;
    }
    let mut digits: Vec<u64> = Vec::new();
    let mut m: u64 = n;
    while m > 0
        invariant
            forall|j: int| 0 <= j < digits@.len() ==> digits@[j] < 10,
            digits@.len() == 0 ==> m == n && n > 0,
            digits@.len() > 0 ==> (if m == 0 {
                dec_rep(n as nat) == digit_chars(digits@).reverse()
            } else {
                dec_rep(n as nat) == dec_rep(m as nat) + digit_chars(digits@).reverse()
            }),
        decreases m,
    {
        let ghost was_empty = digits@.len() == 0;
        let d: u64 = m % 10;
        let m2: u64 = m / 10;
        digits.push(d);
        proof {
            let ds_old = digits@.drop_last();
            let ds_new = digits@;
            assert(digit_chars(ds_new).reverse() =~= seq![digit_char(d as nat)]
                + digit_chars(ds_old).reverse());
            if was_empty {
                assert(digit_chars(ds_old).reverse() =~= Seq::<char>::empty());
                if m2 == 0 {
                    assert(dec_rep(n as nat) =~= digit_chars(ds_new).reverse());
                } else {
                    assert(dec_rep(m as nat) == dec_rep(m2 as nat).push(digit_char(d as nat)));
                    assert(dec_rep(n as nat) =~= dec_rep(m2 as nat) + digit_chars(
                        ds_new,
                    ).reverse());
                }
            } else {
                if m2 == 0 {
                    assert(dec_rep(m as nat) =~= seq![digit_char(d as nat)]);
                    assert(dec_rep(n as nat) =~= digit_chars(ds_new).reverse());
                } else {
                    assert(dec_rep(m as nat) == dec_rep(m2 as nat).push(digit_char(d as nat)));
                    assert(dec_rep(n as nat) =~= dec_rep(m2 as nat) + digit_chars(
                        ds_new,
                    ).reverse());
                }
            }
        }
        m = m2;
    }
    let ghost target = dec_rep(n as nat);
    let mut s = String::new();
    let mut i: usize = digits.len();
    proof {
        assert(s@ =~= target.take(0));
    }
    while i > 0
        invariant
            i <= digits@.len(),
            forall|j: int| 0 <= j < digits@.len() ==> digits@[j] < 10,
            target == digit_chars(digits@).reverse(),
            s@ =~= target.take(digits@.len() - i),
        decreases i,
    {
        i = i - 1;
        let d = digits[i];
        s.append(digit_str(d));
        proof {
            let done = digits@.len() - i;
            assert(target[done - 1] == digit_chars(digits@)[i as int]);
            assert(s@ =~= target.take(done));
        }
    }
    proof {
        assert(s@ =~= target);
    }
    s
}

} // verus!
