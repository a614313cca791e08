//! The ledger of one pool: which two assets it pairs, how much of each it
//! holds, and how many liquidity shares are outstanding.

use crate::errors::PlutoError;
use vstd::prelude::*;

verus! {

/// The identifier of an asset: 32 bytes, compared byte by byte.
#[derive(Clone, Copy, Debug)]
pub struct AssetId {
    pub bytes: [u8; 32],
}

impl View for AssetId {
    type V = Seq<u8>;

    open spec fn view(&self) -> Seq<u8> {
        self.bytes@
    }
}

impl AssetId {
    /// An identifier made of the given bytes.
    pub fn new(bytes: [u8; 32]) -> (id: AssetId)
        ensures
            id@ == bytes@,
    {
        AssetId { bytes }
    }

    /// Whether two identifiers name the same asset.
    pub fn same_as(&self, other: &AssetId) -> (same: bool)
        ensures
            same == (self@ == other@),
    {
        let mut i: usize = 0;
        while i < 32
            invariant
                i <= 32,
                forall|k: int| 0 <= k < i ==> self.bytes@[k] == other.bytes@[k],
            decreases 32 - i,
        {
            if self.bytes[i] != other.bytes[i] {
                return false;
            }
            i += 1;
        }
        assert(self@ =~= other@);
        true
    }
}

/// One pool. Its numbers change only as a whole, through [`PoolState::apply`]
/// and the operations built on it.
#[derive(Clone, Copy, Debug)]
pub struct PoolState {
    /// The first asset of the pair.
    pub mint_a: AssetId,
    /// The second asset of the pair.
    pub mint_b: AssetId,
    /// How much of the first asset the pool holds.
    pub reserve_a: u64,
    /// How much of the second asset the pool holds.
    pub reserve_b: u64,
    /// How many liquidity shares are outstanding; the shares locked by the
    /// first deposit are not counted.
    pub liquidity_supply: u64,
}

impl PoolState {
    /// The pool holds nothing of either asset: no deposit has been made yet.
    pub open spec fn is_empty(self) -> bool {
        self.reserve_a == 0 && self.reserve_b == 0
    }

    /// The two reserves are zero only together, and a pool that holds
    /// nothing has no shares outstanding.
    pub open spec fn wf(self) -> bool {
        &&& (self.reserve_a == 0) == (self.reserve_b == 0)
        &&& self.reserve_a == 0 ==> self.liquidity_supply == 0
    }

    /// The product of the two reserves, the `k` of the pricing curve.
    pub open spec fn product(self) -> int {
        self.reserve_a * self.reserve_b
    }

    /// The pool with its three numbers moved by the given amounts, where
    /// each result is a `u64`.
    pub open spec fn shifted(self, delta_a: int, delta_b: int, delta_supply: int) -> PoolState {
        PoolState {
            mint_a: self.mint_a,
            mint_b: self.mint_b,
            reserve_a: (self.reserve_a + delta_a) as u64,
            reserve_b: (self.reserve_b + delta_b) as u64,
            liquidity_supply: (self.liquidity_supply + delta_supply) as u64,
        }
    }

    /// Some number would become negative.
    pub open spec fn underflows(self, delta_a: int, delta_b: int, delta_supply: int) -> bool {
        ||| self.reserve_a + delta_a < 0
        ||| self.reserve_b + delta_b < 0
        ||| self.liquidity_supply + delta_supply < 0
    }

    /// Some number would exceed what a `u64` holds.
    pub open spec fn overflows(self, delta_a: int, delta_b: int, delta_supply: int) -> bool {
        ||| self.reserve_a + delta_a > u64::MAX
        ||| self.reserve_b + delta_b > u64::MAX
        ||| self.liquidity_supply + delta_supply > u64::MAX
    }

    /// What [`PoolState::apply`] answers.
    pub open spec fn apply_result(self, delta_a: int, delta_b: int, delta_supply: int) -> Result<
        (),
        PlutoError,
    > {
        if self.underflows(delta_a, delta_b, delta_supply) {
            Err(PlutoError::Underflow)
        } else if self.overflows(delta_a, delta_b, delta_supply) {
            Err(PlutoError::ArithmeticOverflow)
        } else {
            Ok(())
        }
    }

    /// An empty pool over the two assets. Whether the pair is admissible is
    /// for [`PoolState::initialize`] and [`create_pool`] to say.
    pub fn new(mint_a: AssetId, mint_b: AssetId) -> (pool: PoolState)
        ensures
            pool.mint_a == mint_a,
            pool.mint_b == mint_b,
            pool.reserve_a == 0,
            pool.reserve_b == 0,
            pool.liquidity_supply == 0,
            pool.wf(),
    {
        PoolState { mint_a, mint_b, reserve_a: 0, reserve_b: 0, liquidity_supply: 0 }
    }

    /// Records the pair of assets that the pool is for. Two identical assets
    /// are refused with `DuplicateAssetPair`, and the pool stays as it was.
    /// Reserves and supply are not touched.
    pub fn initialize(&mut self, mint_a: AssetId, mint_b: AssetId) -> (r: Result<(), PlutoError>)
        ensures
            mint_a@ == mint_b@ ==> r == Err::<(), PlutoError>(PlutoError::DuplicateAssetPair)
                && *final(self) == *old(self),
            mint_a@ != mint_b@ ==> r == Ok::<(), PlutoError>(()) && *final(self) == (PoolState {
                mint_a,
                mint_b,
                ..*old(self)
            }),
            old(self).wf() ==> final(self).wf(),
    {
        if mint_a.same_as(&mint_b) {
            return Err(PlutoError::DuplicateAssetPair);
        }
        self.mint_a = mint_a;
        self.mint_b = mint_b;
        Ok(())
    }

    /// The reserves of the two assets and the share supply, read together.
    pub fn snapshot(&self) -> (numbers: (u64, u64, u64))
        ensures
            numbers == (self.reserve_a, self.reserve_b, self.liquidity_supply),
    {
        (self.reserve_a, self.reserve_b, self.liquidity_supply)
    }

    /// Moves the two reserves and the share supply by the given amounts, all
    /// three or none. `Underflow` when a number would become negative;
    /// otherwise `ArithmeticOverflow` when one would exceed a `u64`.
    ///
    /// This is bookkeeping only: that the reserves stay empty or full
    /// together is seen to by the deposits, withdrawals and swaps, which
    /// decide what to apply.
    pub fn apply(&mut self, delta_a: i64, delta_b: i64, delta_supply: i64) -> (r: Result<
        (),
        PlutoError,
    >)
        ensures
            r == old(self).apply_result(delta_a as int, delta_b as int, delta_supply as int),
            r is Ok ==> *final(self) == old(self).shifted(
                delta_a as int,
                delta_b as int,
                delta_supply as int,
            ),
            r is Err ==> *final(self) == *old(self),
    {
        let reserve_a: i128 = self.reserve_a as i128 + delta_a as i128;
        let reserve_b: i128 = self.reserve_b as i128 + delta_b as i128;
        let liquidity_supply: i128 = self.liquidity_supply as i128 + delta_supply as i128;
        if reserve_a < 0 || reserve_b < 0 || liquidity_supply < 0 {
            return Err(PlutoError::Underflow);
        }
        if reserve_a > u64::MAX as i128 || reserve_b > u64::MAX as i128 || liquidity_supply
            > u64::MAX as i128 {
            return Err(PlutoError::ArithmeticOverflow);
        }
        self.reserve_a = reserve_a as u64;
        self.reserve_b = reserve_b as u64;
        self.liquidity_supply = liquidity_supply as u64;
        Ok(())
    }
}

/// A new, empty pool over two different assets; `DuplicateAssetPair` when the
/// two are the same.
pub fn create_pool(mint_a: AssetId, mint_b: AssetId) -> (r: Result<PoolState, PlutoError>)
    ensures
        mint_a@ == mint_b@ ==> r == Err::<PoolState, PlutoError>(PlutoError::DuplicateAssetPair),
        mint_a@ != mint_b@ ==> r == Ok::<PoolState, PlutoError>(
            PoolState { mint_a, mint_b, reserve_a: 0, reserve_b: 0, liquidity_supply: 0 },
        ),
        r matches Ok(pool) ==> pool.wf() && pool.is_empty(),
{
    let mut pool = PoolState::new(mint_a, mint_b);
    match pool.initialize(mint_a, mint_b) {
        Ok(()) => Ok(pool),
        Err(e) => Err(e),
    }
}

} // verus!
