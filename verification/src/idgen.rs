use vstd::prelude::*;
use vstd::string::StringExecFns;
use crate::ident::{is_hex_digit, is_object_id_hex};

verus! {

/// The lowercase hex digit for a value below 16.
pub open spec fn hex_digit(d: u64) -> char {
    if d == 0 {
        '0'
    } else if d == 1 {
        '1'
    } else if d == 2 {
        '2'
    } else if d == 3 {
        '3'
    } else if d == 4 {
        '4'
    } else if d == 5 {
        '5'
    } else if d == 6 {
        '6'
    } else if d == 7 {
        '7'
    } else if d == 8 {
        '8'
    } else if d == 9 {
        '9'
    } else if d == 10 {
        'a'
    } else if d == 11 {
        'b'
    } else if d == 12 {
        'c'
    } else if d == 13 {
        'd'
    } else if d == 14 {
        'e'
    } else {
        'f'
    }
}

/// The `j`-th hex digit of `k`, most significant first, of sixteen.
pub open spec fn nib(k: u64, j: int) -> u64 {
    (k >> (((15 - j) * 4) as u64)) & 0xf
}

/// The identifier the reference store assigns for creation number
/// `k`: eight zeroes, then `k` as sixteen hex digits — a valid
/// 24-digit object-identifier string, distinct for distinct `k`.
pub open spec fn counter_id(k: u64) -> Seq<char> {
    Seq::new(24, |i: int| if i < 8 { '0' } else { hex_digit(nib(k, i - 8)) })
}

proof fn lemma_nib_bound(k: u64, j: int)
    requires
        0 <= j < 16,
    ensures
        nib(k, j) < 16,
{
    let sh = ((15 - j) * 4) as u64;
    assert((k >> sh) & 0xf < 16) by (bit_vector);
}

/// Identifiers assigned by the reference store are valid identifier
/// strings.
pub proof fn lemma_counter_id_valid(k: u64)
    ensures
        is_object_id_hex(counter_id(k)),
{
    assert forall|i: int| 0 <= i < 24 implies is_hex_digit(counter_id(k)[i]) by {
        if i >= 8 {
            lemma_nib_bound(k, i - 8);
        }
    }
}

/// Distinct creation numbers give distinct identifiers: no identifier
/// is ever re-used.
pub proof fn lemma_counter_id_injective(k1: u64, k2: u64)
    requires
        counter_id(k1) == counter_id(k2),
    ensures
        k1 == k2,
{
    assert forall|j: int| 0 <= j < 16 implies nib(k1, j) == nib(k2, j) by {
        lemma_nib_bound(k1, j);
        lemma_nib_bound(k2, j);
        assert(counter_id(k1)[j + 8] == counter_id(k2)[j + 8]);
        assert(counter_id(k1)[j + 8] == hex_digit(nib(k1, j + 8 - 8)));
        assert(counter_id(k2)[j + 8] == hex_digit(nib(k2, j + 8 - 8)));
        assert(hex_digit(nib(k1, j)) == hex_digit(nib(k2, j)));
    }
    assert(nib(k1, 0) == nib(k2, 0));
    assert(nib(k1, 1) == nib(k2, 1));
    assert(nib(k1, 2) == nib(k2, 2));
    assert(nib(k1, 3) == nib(k2, 3));
    assert(nib(k1, 4) == nib(k2, 4));
    assert(nib(k1, 5) == nib(k2, 5));
    assert(nib(k1, 6) == nib(k2, 6));
    assert(nib(k1, 7) == nib(k2, 7));
    assert(nib(k1, 8) == nib(k2, 8));
    assert(nib(k1, 9) == nib(k2, 9));
    assert(nib(k1, 10) == nib(k2, 10));
    assert(nib(k1, 11) == nib(k2, 11));
    assert(nib(k1, 12) == nib(k2, 12));
    assert(nib(k1, 13) == nib(k2, 13));
    assert(nib(k1, 14) == nib(k2, 14));
    assert(nib(k1, 15) == nib(k2, 15));
    assert(k1 == k2) by (bit_vector)
        requires
            (k1 >> 60u64) & 0xf == (k2 >> 60u64) & 0xf,
            (k1 >> 56u64) & 0xf == (k2 >> 56u64) & 0xf,
            (k1 >> 52u64) & 0xf == (k2 >> 52u64) & 0xf,
            (k1 >> 48u64) & 0xf == (k2 >> 48u64) & 0xf,
            (k1 >> 44u64) & 0xf == (k2 >> 44u64) & 0xf,
            (k1 >> 40u64) & 0xf == (k2 >> 40u64) & 0xf,
            (k1 >> 36u64) & 0xf == (k2 >> 36u64) & 0xf,
            (k1 >> 32u64) & 0xf == (k2 >> 32u64) & 0xf,
            (k1 >> 28u64) & 0xf == (k2 >> 28u64) & 0xf,
            (k1 >> 24u64) & 0xf == (k2 >> 24u64) & 0xf,
            (k1 >> 20u64) & 0xf == (k2 >> 20u64) & 0xf,
            (k1 >> 16u64) & 0xf == (k2 >> 16u64) & 0xf,
            (k1 >> 12u64) & 0xf == (k2 >> 12u64) & 0xf,
            (k1 >> 8u64) & 0xf == (k2 >> 8u64) & 0xf,
            (k1 >> 4u64) & 0xf == (k2 >> 4u64) & 0xf,
            (k1 >> 0u64) & 0xf == (k2 >> 0u64) & 0xf,
    ;
}

fn hex_digit_str(d: u64) -> (r: &'static str)
    requires
        d < 16,
    ensures
        r@ == seq![hex_digit(d)],
{
    let r: &'static str = if d == 0 {
        "0"
    } else if d == 1 {
        "1"
    } else if d == 2 {
        "2"
    } else if d == 3 {
        "3"
    } else if d == 4 {
        "4"
    } else if d == 5 {
        "5"
    } else if d == 6 {
        "6"
    } else if d == 7 {
        "7"
    } else if d == 8 {
        "8"
    } else if d == 9 {
        "9"
    } else if d == 10 {
        "a"
    } else if d == 11 {
        "b"
    } else if d == 12 {
        "c"
    } else if d == 13 {
        "d"
    } else if d == 14 {
        "e"
    } else {
        "f"
    };
    proof {
        reveal_strlit("0");
        reveal_strlit("1");
        reveal_strlit("2");
        reveal_strlit("3");
        reveal_strlit("4");
        reveal_strlit("5");
        reveal_strlit("6");
        reveal_strlit("7");
        reveal_strlit("8");
        reveal_strlit("9");
        reveal_strlit("a");
        reveal_strlit("b");
        reveal_strlit("c");
        reveal_strlit("d");
        reveal_strlit("e");
        reveal_strlit("f");
        assert(r@ =~= seq![hex_digit(d)]);
    }
    r
}

/// Renders creation number `k` as the identifier string the reference
/// store assigns.
pub fn make_counter_id(k: u64) -> (r: String)
    ensures
        r@ == counter_id(k),
{
    let mut s = String::from_str("00000000");
    proof {
        reveal_strlit("00000000");
        assert forall|i: int| 0 <= i < 8 implies s@[i] == counter_id(k)[i] by {
            assert(s@[i] == '0');
        }
    }
    let mut j: usize = 0;
    while j < 16
        invariant
            j <= 16,
            s@.len() == 8 + j,
            forall|i: int| 0 <= i < 8 + j ==> s@[i] == counter_id(k)[i],
        decreases 16 - j,
    {
        let sh: u64 = ((15 - j) * 4) as u64;
        let d: u64 = (k >> sh) & 0xf;
        proof {
            lemma_nib_bound(k, j as int);
            assert(d == nib(k, j as int));
        }
        s.append(hex_digit_str(d));
        j += 1;
    }
    proof {
        assert(s@ =~= counter_id(k));
    }
    s
}

} // verus!
