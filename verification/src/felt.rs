//! Elements of the 64-bit prime field and four-element words.

use vstd::prelude::*;

verus! {

/// The field modulus, `2^64 - 2^32 + 1`.
pub const MODULUS: u64 = 0xFFFF_FFFF_0000_0001;

/// An element of the base field, held as its canonical integer in `[0, MODULUS)`.
#[derive(Clone, Copy, Debug, PartialEq, Eq, Structural)]
pub struct Felt {
    value: u64,
}

/// Four field elements: the unit of commitments and hashes.
pub type Word = [Felt; 4];

impl View for Felt {
    type V = u64;

    closed spec fn view(&self) -> u64 {
        self.value
    }
}

impl Felt {
    /// Every element that executable code holds is canonical.
    #[verifier::type_invariant]
    pub closed spec fn is_canonical(self) -> bool {
        self.value < MODULUS
    }

    /// The additive identity.
    pub fn zero() -> (r: Felt)
        ensures
            r@ == 0,
            r.is_canonical(),
    {
        Felt { value: 0 }
    }

    /// The multiplicative identity.
    pub fn one() -> (r: Felt)
        ensures
            r@ == 1,
            r.is_canonical(),
    {
        Felt { value: 1 }
    }

    /// The element that `value` stands for: `value` reduced modulo the field modulus.
    pub fn new(value: u64) -> (r: Felt)
        ensures
            r@ == value % MODULUS,
            r.is_canonical(),
    {
        Felt { value: value % MODULUS }
    }

    /// The canonical integer of this element.
    pub fn as_int(&self) -> (r: u64)
        ensures
            r == self@,
            r < MODULUS,
    {
        proof {
            use_type_invariant(self);
        }
        self.value
    }
}

/// The canonical integers of a word's elements, in order.
pub open spec fn word_ints(w: Word) -> Seq<u64> {
    seq![w[0]@, w[1]@, w[2]@, w[3]@]
}

/// Whether every element of the word is canonical.
pub open spec fn word_canonical(w: Word) -> bool {
    forall|i: int| 0 <= i < 4 ==> (#[trigger] w[i]).is_canonical()
}

/// The integers of the word of four zeros.
pub open spec fn empty_word_ints() -> Seq<u64> {
    seq![0u64, 0u64, 0u64, 0u64]
}

/// The word of four zeros.
pub fn empty_word() -> (w: Word)
    ensures
        word_ints(w) == empty_word_ints(),
        word_canonical(w),
{
    let w = [Felt::zero(), Felt::zero(), Felt::zero(), Felt::zero()];
    proof {
        assert(word_ints(w) =~= empty_word_ints());
    }
    w
}

/// Whether two words hold the same elements.
pub fn word_eq(a: &Word, b: &Word) -> (r: bool)
    ensures
        r == (word_ints(*a) == word_ints(*b)),
{
    let r = a[0].as_int() == b[0].as_int() && a[1].as_int() == b[1].as_int() && a[2].as_int()
        == b[2].as_int() && a[3].as_int() == b[3].as_int();
    proof {
        if r {
            assert(word_ints(*a) =~= word_ints(*b));
        } else {
            let x = word_ints(*a);
            let y = word_ints(*b);
            assert(x[0] != y[0] || x[1] != y[1] || x[2] != y[2] || x[3] != y[3]);
        }
    }
    r
}

/// The canonical integers of a sequence of field elements.
pub open spec fn felt_ints(felts: Seq<Felt>) -> Seq<u64> {
    Seq::new(felts.len(), |i: int| felts[i]@)
}

/// A copy of a list of field elements.
pub fn clone_felts(felts: &Vec<Felt>) -> (copy: Vec<Felt>)
    ensures
        copy@ == felts@,
{
    let mut copy: Vec<Felt> = Vec::new();
    let mut i: usize = 0;
    while i < felts.len()
        invariant
            i <= felts.len(),
            copy@ == felts@.take(i as int),
        decreases felts.len() - i,
    {
        copy.push(felts[i]);
        proof {
            assert(copy@ =~= felts@.take(i + 1));
        }
        i += 1;
    }
    proof {
        assert(felts@.take(i as int) =~= felts@);
    }
    copy
}

/// Whether two lists hold the same elements in the same order.
pub fn felts_eq(a: &Vec<Felt>, b: &Vec<Felt>) -> (equal: bool)
    ensures
        equal == (felt_ints(a@) == felt_ints(b@)),
{
    if a.len() != b.len() {
        proof {
            assert(felt_ints(a@).len() != felt_ints(b@).len());
        }
        return false;
    }
    let mut i: usize = 0;
    while i < a.len()
        invariant
            i <= a.len(),
            a.len() == b.len(),
            forall|k: int| 0 <= k < i ==> a@[k]@ == b@[k]@,
        decreases a.len() - i,
    {
        if a[i].as_int() != b[i].as_int() {
            proof {
                assert(felt_ints(a@)[i as int] != felt_ints(b@)[i as int]);
            }
            return false;
        }
        i += 1;
    }
    proof {
        assert(felt_ints(a@) =~= felt_ints(b@));
    }
    true
}

} // verus!
