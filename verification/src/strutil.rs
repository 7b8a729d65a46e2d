use vstd::prelude::*;
use vstd::string::StrSliceExecFns;

verus! {

/// Character-for-character comparison of two string slices.
pub fn str_eq(a: &str, b: &str) -> (r: bool)
    ensures
        r == (a@ == b@),
{
    let la = a.unicode_len();
    let lb = b.unicode_len();
    if la != lb {
        return false;
    }
    let mut i: usize = 0;
    while i < la
        invariant
            0 <= i <= la,
            la == a@.len(),
            la == b@.len(),
            forall|n: int| 0 <= n < i ==> a@[n] == b@[n],
        decreases la - i,
    {
        if a.get_char(i) != b.get_char(i) {
            return false;
        }
        i = i + 1;
    }
    proof {
        assert(a@ =~= b@);
    }
    true
}

/// Relies on String::push: appends one character at the end.
#[verifier::external_body]
pub fn push_char(s: &mut String, c: char)
    ensures
        final (s)@ == old(s)@.push(c),
{
    s.push(c);
}

pub open spec fn dec_digit(d: nat) -> char {
    if d == 0 {
        '0'
    } else if d == 1 {
        '1'
    } else if d == 2 {
        '2'
    } else if d == 3 {
        '3'
    } else if d == 4 {
        '4'
    } else if d == 5 {
        '5'
    } else if d == 6 {
        '6'
    } else if d == 7 {
        '7'
    } else if d == 8 {
        '8'
    } else {
        '9'
    }
}

/// The decimal digits of `n`, most significant first.
pub open spec fn dec_str(n: nat) -> Seq<char>
    decreases n,
{
    if n < 10 {
        seq![dec_digit(n)]
    } else {
        dec_str(n / 10).push(dec_digit(n % 10))
    }
}

fn dec_digit_exec(d: u64) -> (c: char)
    requires
        d < 10,
    ensures
        c == dec_digit(d as nat),
{
    if d == 0 {
        '0'
    } else if d == 1 {
        '1'
    } else if d == 2 {
        '2'
    } else if d == 3 {
        '3'
    } else if d == 4 {
        '4'
    } else if d == 5 {
        '5'
    } else if d == 6 {
        '6'
    } else if d == 7 {
        '7'
    } else if d == 8 {
        '8'
    } else {
        '9'
    }
}

proof fn lemma_reverse_push<A>(s: Seq<A>, a: A)
    ensures
        s.push(a).reverse() == seq![a] + s.reverse(),
{
    assert(s.push(a).reverse() =~= seq![a] + s.reverse());
}

/// Renders `n` in decimal.
pub fn u64_to_dec(n: u64) -> (r: String)
    ensures
        r@ == dec_str(n as nat),
{
    if n == 0 {
        let mut s = String::new();
        push_char(&mut s, '0');
        proof {
            assert(s@ =~= dec_str(0));
        }
        return s;
    }
    let mut digits: Vec<char> = Vec::new();
    let mut m: u64 = n;
    while m > 0
        invariant
            m > 0 ==> dec_str(n as nat) == dec_str(m as nat) + digits@.reverse(),
            m == 0 ==> dec_str(n as nat) == digits@.reverse(),
        decreases m,
    {
        let ghost dg = digits@;
        let ghost m0 = m as nat;
        let d = m % 10;
        digits.push(dec_digit_exec(d));
        m = m / 10;
        proof {
            lemma_reverse_push(dg, dec_digit(m0 % 10));
            assert(digits@ == dg.push(dec_digit(m0 % 10)));
            if m0 >= 10 {
                assert(dec_str(m0) == dec_str(m0 / 10).push(dec_digit(m0 % 10)));
                assert(dec_str(m0 / 10).push(dec_digit(m0 % 10)) + dg.reverse() =~= dec_str(
                    m0 / 10,
                ) + (seq![dec_digit(m0 % 10)] + dg.reverse()));
            } else {
                assert(dec_str(m0) =~= seq![dec_digit(m0)]);
                assert(dec_str(m0) + dg.reverse() =~= seq![dec_digit(m0 % 10)] + dg.reverse());
            }
        }
    }
    let mut s = String::new();
    let mut j: usize = digits.len();
    proof {
        assert(s@ =~= digits@.skip(j as int).reverse());
    }
    while j > 0
        invariant
            j <= digits@.len(),
            dec_str(n as nat) == digits@.reverse(),
            s@ == digits@.skip(j as int).reverse(),
        decreases j,
    {
        let ghost s0 = s@;
        j = j - 1;
        push_char(&mut s, digits[j]);
        proof {
            assert(s@ == s0.push(digits@[j as int]));
            assert(digits@.skip(j as int).reverse() =~= digits@.skip(j + 1).reverse().push(
                digits@[j as int],
            ));
        }
    }
    proof {
        assert(digits@.skip(0) =~= digits@);
    }
    s
}

pub open spec fn hex_digit(d: nat) -> char {
    if d < 10 {
        dec_digit(d)
    } else if d == 10 {
        'a'
    } else if d == 11 {
        'b'
    } else if d == 12 {
        'c'
    } else if d == 13 {
        'd'
    } else if d == 14 {
        'e'
    } else {
        'f'
    }
}

pub(crate) fn hex_digit_exec(d: u8) -> (c: char)
    requires
        d < 16,
    ensures
        c == hex_digit(d as nat),
{
    if d < 10 {
        dec_digit_exec(d as u64)
    } else if d == 10 {
        'a'
    } else if d == 11 {
        'b'
    } else if d == 12 {
        'c'
    } else if d == 13 {
        'd'
    } else if d == 14 {
        'e'
    } else {
        'f'
    }
}

/// The lower-case hexadecimal rendering of a byte string, two digits per byte.
pub open spec fn hex_of(bytes: Seq<u8>) -> Seq<char>
    decreases bytes.len(),
{
    if bytes.len() == 0 {
        Seq::empty()
    } else {
        seq![
            hex_digit(bytes[0] as nat / 16),
            hex_digit(bytes[0] as nat % 16),
        ] + hex_of(bytes.drop_first())
    }
}

proof fn lemma_hex_of_push(bytes: Seq<u8>, b: u8)
    ensures
        hex_of(bytes.push(b)) == hex_of(bytes) + seq![
            hex_digit(b as nat / 16),
            hex_digit(b as nat % 16),
        ],
    decreases bytes.len(),
{
    if bytes.len() == 0 {
        assert(bytes.push(b).drop_first() =~= Seq::<u8>::empty());
        assert(bytes.push(b)[0] == b);
        assert(hex_of(bytes.push(b).drop_first()) == Seq::<char>::empty());
        assert(hex_of(bytes.push(b)) =~= hex_of(bytes) + seq![
            hex_digit(b as nat / 16),
            hex_digit(b as nat % 16),
        ]);
    } else {
        assert(bytes.push(b).drop_first() =~= bytes.drop_first().push(b));
        lemma_hex_of_push(bytes.drop_first(), b);
        assert(bytes.push(b)[0] == bytes[0]);
        assert(hex_of(bytes.push(b).drop_first()) == hex_of(bytes.drop_first()) + seq![
            hex_digit(b as nat / 16),
            hex_digit(b as nat % 16),
        ]);
        assert(hex_of(bytes.push(b)) == seq![
            hex_digit(bytes[0] as nat / 16),
            hex_digit(bytes[0] as nat % 16),
        ] + (hex_of(bytes.drop_first()) + seq![
            hex_digit(b as nat / 16),
            hex_digit(b as nat % 16),
        ]));
        assert(hex_of(bytes.push(b)) =~= hex_of(bytes) + seq![
            hex_digit(b as nat / 16),
            hex_digit(b as nat % 16),
        ]);
    }
}

/// Renders a byte string in lower-case hexadecimal.
pub fn bytes_to_hex(bytes: &Vec<u8>) -> (r: String)
    ensures
        r@ == hex_of(bytes@),
{
    let mut s = String::new();
    let mut i: usize = 0;
    proof {
        assert(bytes@.take(0) =~= Seq::<u8>::empty());
        assert(s@ =~= hex_of(bytes@.take(0)));
    }
    while i < bytes.len()
        invariant
            i <= bytes@.len(),
            s@ == hex_of(bytes@.take(i as int)),
        decreases bytes@.len() - i,
    {
        let ghost pre = bytes@.take(i as int);
        let b = bytes[i];
        push_char(&mut s, hex_digit_exec(b / 16));
        push_char(&mut s, hex_digit_exec(b % 16));
        proof {
            lemma_hex_of_push(pre, b);
            assert(bytes@.take(i + 1) =~= pre.push(b));
            assert(s@ =~= hex_of(pre) + seq![
                hex_digit(b as nat / 16),
                hex_digit(b as nat % 16),
            ]);
        }
        i = i + 1;
    }
    proof {
        assert(bytes@.take(i as int) =~= bytes@);
    }
    s
}

} // verus!
