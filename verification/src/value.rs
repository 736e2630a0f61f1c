//! Runtime value semantics: truthiness, structural equality, and the display
//! text of values, together with small byte-sequence helpers used across the
//! crate.

use vstd::prelude::*;

use crate::ast::{Literal, SpecLit};

verus! {

/// The byte sequence of an ASCII character sequence.
pub open spec fn ascii_bytes(s: Seq<char>) -> Seq<u8> {
    Seq::new(s.len(), |i: int| s[i] as u8)
}

/// Whether two byte vectors hold the same bytes.
pub fn bytes_eq(a: &Vec<u8>, b: &Vec<u8>) -> (r: bool)
    ensures
        r == (a@ == b@),
{
    if a.len() != b.len() {
        return false;
    }
    let mut i: usize = 0;
    while i < a.len()
        invariant
            a@.len() == b@.len(),
            i <= a@.len(),
            forall|j: int| 0 <= j < i ==> a@[j] == b@[j],
        decreases a@.len() - i,
    {
        if a[i] != b[i] {
            return false;
        }
        i = i + 1;
    }
    proof {
        assert(a@ =~= b@);
    }
    true
}

/// The bytes of an ASCII string slice, as a vector.
pub fn str_bytes(s: &str) -> (r: Vec<u8>)
    requires
        s.is_ascii(),
    ensures
        r@ == ascii_bytes(s@),
{
    let r = vstd::slice::slice_to_vec(s.as_bytes());
    proof {
        vstd::string::is_ascii_spec_bytes(s);
        assert(r@ =~= ascii_bytes(s@));
    }
    r
}

/// A copy of a byte vector.
pub fn clone_bytes(v: &Vec<u8>) -> (r: Vec<u8>)
    ensures
        r@ == v@,
{
    let r = vstd::slice::slice_to_vec(v.as_slice());
    proof {
        assert(r@ =~= v@);
    }
    r
}

/// Truthiness: `nil` and `false` are falsy, every other value is truthy.
pub open spec fn spec_truthy(v: SpecLit) -> bool {
    match v {
        SpecLit::Nil => false,
        SpecLit::Bool(b) => b,
        _ => true,
    }
}

/// Structural equality of two values: equal only within one variant;
/// function values compare by their declared name.
pub open spec fn spec_lit_eq(a: SpecLit, b: SpecLit) -> bool {
    match (a, b) {
        (SpecLit::Identifier(x), SpecLit::Identifier(y)) => x == y,
        (SpecLit::Fun(f), SpecLit::Fun(g)) => f.name.lexeme == g.name.lexeme,
        (SpecLit::Text(x), SpecLit::Text(y)) => x == y,
        (SpecLit::Num(x), SpecLit::Num(y)) => x == y,
        (SpecLit::Nil, SpecLit::Nil) => true,
        (SpecLit::Bool(x), SpecLit::Bool(y)) => x == y,
        _ => false,
    }
}

impl Literal {
    /// In this language, `false` and `nil` are falsy; everything else is
    /// truthy.
    pub fn is_truthy(&self) -> (r: bool)
        ensures
            r == spec_truthy(self@),
    {
        match self {
            Literal::Nil => false,
            Literal::Bool(b) => *b,
            _ => true,
        }
    }

    /// Structural equality within a variant; mismatched variants are always
    /// unequal.
    pub fn is_equal(left: &Literal, right: &Literal) -> (r: Literal)
        ensures
            r@ == SpecLit::Bool(spec_lit_eq(left@, right@)),
    {
        let equality = match (left, right) {
            (Literal::Identifier(a), Literal::Identifier(b)) => bytes_eq(a, b),
            (Literal::Fun(a), Literal::Fun(b)) => bytes_eq(&a.name.lexeme, &b.name.lexeme),
            (Literal::Text(a), Literal::Text(b)) => bytes_eq(a, b),
            (Literal::Number(a), Literal::Number(b)) => *a == *b,
            (Literal::Nil, Literal::Nil) => true,
            (Literal::Bool(a), Literal::Bool(b)) => *a == *b,
            _ => false,
        };
        Literal::Bool(equality)
    }
}

/// Decimal digits of a natural number, most significant first.
pub open spec fn dec_nat(n: nat) -> Seq<u8>
    decreases n,
{
    if n < 10 {
        seq![(48 + n) as u8]
    } else {
        dec_nat(n / 10).push((48 + n % 10) as u8)
    }
}

/// Decimal text of an integer: a minus sign for negatives, then the digits.
pub open spec fn dec_int(n: int) -> Seq<u8> {
    if n < 0 {
        seq![45u8] + dec_nat((-n) as nat)
    } else {
        dec_nat(n as nat)
    }
}

/// Decimal text of an unsigned machine integer.
pub fn render_u64(n: u64) -> (r: Vec<u8>)
    ensures
        r@ == dec_nat(n as nat),
    decreases n,
{
    if n < 10 {
        let mut r: Vec<u8> = Vec::new();
        r.push(48 + (n as u8));
        proof {
            assert(r@ =~= dec_nat(n as nat));
        }
        r
    } else {
        let mut r = render_u64(n / 10);
        r.push(48 + ((n % 10) as u8));
        r
    }
}

/// Decimal text of a signed machine integer.
pub fn render_i64(n: i64) -> (r: Vec<u8>)
    ensures
        r@ == dec_int(n as int),
{
    if n >= 0 {
        render_u64(n as u64)
    } else {
        // Negate without overflowing on the smallest value.
        let m: u64 = ((-(n + 1)) as u64) + 1;
        proof {
            assert(m as nat == (-(n as int)) as nat);
        }
        let digits = render_u64(m);
        let mut r: Vec<u8> = Vec::new();
        r.push(45);
        let ghost pre = r@;
        let mut rest = digits;
        r.append(&mut rest);
        proof {
            assert(r@ =~= dec_int(n as int));
        }
        r
    }
}

/// The display text of a value.
pub open spec fn spec_render_lit(v: SpecLit) -> Seq<u8> {
    match v {
        SpecLit::Identifier(s) => ascii_bytes("<"@) + s + ascii_bytes(">"@),
        SpecLit::Fun(f) => ascii_bytes("<fn "@) + f.name.lexeme + ascii_bytes(">"@),
        SpecLit::Text(s) => s,
        SpecLit::Num(n) => dec_int(n as int),
        SpecLit::Nil => ascii_bytes("nil"@),
        SpecLit::Bool(b) => if b {
            ascii_bytes("true"@)
        } else {
            ascii_bytes("false"@)
        },
    }
}

impl Literal {
    /// The display text of this value: numbers in decimal, strings as their
    /// contents, `nil`, `true` and `false` as those words, identifiers and
    /// functions in angle brackets.
    pub fn render(&self) -> (r: Vec<u8>)
        ensures
            r@ == spec_render_lit(self@),
    {
        match self {
            Literal::Identifier(s) => {
                proof {
                    reveal_strlit("<");
                    reveal_strlit(">");
                }
                let mut r = str_bytes("<");
                let mut mid = clone_bytes(s);
                r.append(&mut mid);
                let mut close = str_bytes(">");
                r.append(&mut close);
                proof {
                    assert(r@ =~= spec_render_lit(self@));
                }
                r
            },
            Literal::Fun(f) => {
                proof {
                    reveal_strlit("<fn ");
                    reveal_strlit(">");
                }
                let mut r = str_bytes("<fn ");
                let mut mid = clone_bytes(&f.name.lexeme);
                r.append(&mut mid);
                let mut close = str_bytes(">");
                r.append(&mut close);
                proof {
                    assert(r@ =~= spec_render_lit(self@));
                }
                r
            },
            Literal::Text(s) => clone_bytes(s),
            Literal::Number(n) => render_i64(*n),
            Literal::Nil => {
                proof {
                    reveal_strlit("nil");
                }
                str_bytes("nil")
            },
            Literal::Bool(b) => {
                if *b {
                    proof {
                        reveal_strlit("true");
                    }
                    str_bytes("true")
                } else {
                    proof {
                        reveal_strlit("false");
                    }
                    str_bytes("false")
                }
            },
        }
    }
}

} // verus!
