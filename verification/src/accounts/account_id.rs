//! Account identifiers: field elements that meet the identifier's validity rules.

use crate::errors::AccountError;
use crate::felt::Felt;
use vstd::prelude::*;
use vstd::std_specs::convert::TryFromSpecImpl;

verus! {

/// The least number of bits that are set in a valid identifier.
pub const MIN_ACCOUNT_ONES: u32 = 5;

/// The storage-mode bits of an account whose state is public.
pub const PUBLIC: u64 = 0;

/// The storage-mode bits of an account whose state is private.
pub const PRIVATE: u64 = 2;

/// The value of the lower of the two storage-mode bits, the two highest bits of an
/// identifier.
pub const STORAGE_MODE_UNIT: u64 = 0x4000_0000_0000_0000;

/// The number of bits that are set in `v`.
pub open spec fn ones(v: nat) -> nat
    decreases v,
{
    if v == 0 {
        0
    } else {
        v % 2 + ones(v / 2)
    }
}

/// The storage-mode bits of `v`: its two highest bits.
pub open spec fn storage_mode_bits(v: u64) -> u64 {
    v / STORAGE_MODE_UNIT
}

/// What is wrong with `v` as an identifier, if anything: too few bits set, which is looked
/// at first, or storage-mode bits that stand for no storage mode.
pub open spec fn id_failure(v: u64) -> Option<AccountError> {
    if ones(v as nat) < MIN_ACCOUNT_ONES {
        Some(AccountError::AccountIdTooFewOnes(MIN_ACCOUNT_ONES, ones(v as nat) as u32))
    } else if storage_mode_bits(v) != PUBLIC && storage_mode_bits(v) != PRIVATE {
        Some(AccountError::InvalidAccountStorageMode)
    } else {
        None
    }
}

/// A number below `2^k` has at most `k` bits set.
proof fn lemma_ones_bound(v: nat, k: nat, bound: nat)
    requires
        bound == vstd::arithmetic::power2::pow2(k),
        v < bound,
    ensures
        ones(v) <= k,
    decreases k,
{
    vstd::arithmetic::power2::lemma2_to64();
    if v > 0 {
        if k == 0 {
        } else {
            vstd::arithmetic::power2::lemma_pow2_unfold(k);
            lemma_ones_bound(v / 2, (k - 1) as nat, vstd::arithmetic::power2::pow2((k - 1) as nat));
        }
    }
}

/// The number of bits that are set in `v`.
pub fn count_ones(v: u64) -> (n: u32)
    ensures
        n == ones(v as nat),
        n <= 64,
{
    proof {
        vstd::arithmetic::power2::lemma2_to64_rest();
        lemma_ones_bound(v as nat, 64, 0x1_0000_0000_0000_0000);
    }
    let mut rest: u64 = v;
    let mut n: u32 = 0;
    while rest > 0
        invariant
            n + ones(rest as nat) == ones(v as nat),
            ones(v as nat) <= 64,
        decreases rest,
    {
        n = n + (rest % 2) as u32;
        rest = rest / 2;
    }
    n
}

/// The identifier of an account.
#[derive(Debug, Clone, Copy, PartialEq, Eq)]
pub struct AccountId {
    id: Felt,
}

impl View for AccountId {
    type V = u64;

    /// The canonical integer of the identifier.
    closed spec fn view(&self) -> u64 {
        self.id@
    }
}

impl AccountId {
    /// Every identifier in executable code meets the validity rules.
    #[verifier::type_invariant]
    pub closed spec fn valid(self) -> bool {
        id_failure(self.id@) is None
    }

    /// The field element of the identifier.
    pub fn felt(&self) -> (felt: Felt)
        ensures
            felt@ == self@,
            id_failure(felt@) is None,
    {
        proof {
            use_type_invariant(self);
        }
        self.id
    }
}

impl TryFromSpecImpl<Felt> for AccountId {
    open spec fn obeys_try_from_spec() -> bool {
        true
    }

    closed spec fn try_from_spec(felt: Felt) -> Result<AccountId, AccountError> {
        match id_failure(felt@) {
            Some(error) => Err(error),
            None => Ok(AccountId { id: felt }),
        }
    }
}

impl TryFrom<Felt> for AccountId {
    type Error = AccountError;

    /// The identifier that `felt` stands for.
    ///
    /// Fails if and only if `felt` breaks a validity rule, with the error of the first
    /// rule that it breaks.
    fn try_from(felt: Felt) -> (r: Result<AccountId, AccountError>)
        ensures
            match id_failure(felt@) {
                Some(error) => r == Err::<AccountId, AccountError>(error),
                None => r matches Ok(id) && id@ == felt@,
            },
    {
        let v = felt.as_int();
        let count = count_ones(v);
        if count < MIN_ACCOUNT_ONES {
            return Err(AccountError::AccountIdTooFewOnes(MIN_ACCOUNT_ONES, count));
        }
        let bits = v / STORAGE_MODE_UNIT;
        if bits != PUBLIC && bits != PRIVATE {
            return Err(AccountError::InvalidAccountStorageMode);
        }
        Ok(AccountId { id: felt })
    }
}

} // verus!
