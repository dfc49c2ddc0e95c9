use vstd::prelude::*;

verus! {

/// A 32-byte account address, compared byte for byte.
#[derive(Debug, Clone, Copy, Hash)]
pub struct Pubkey(pub [u8; 32]);

impl View for Pubkey {
    type V = Seq<u8>;

    /// The address's bytes, in order.
    open spec fn view(&self) -> Seq<u8> {
        self.0@
    }
}

impl PartialEq for Pubkey {
    fn eq(&self, other: &Pubkey) -> (r: bool) {
        let mut i: usize = 0;
        while i < 32
            invariant
                0 <= i <= 32,
                forall|j: int| 0 <= j < i ==> self.0[j] == other.0[j],
            decreases 32 - i,
        {
            if self.0[i] != other.0[i] {
                return false;
            }
            i += 1;
        }
        proof {
            assert(self.0@ =~= other.0@);
        }
        true
    }
}

impl vstd::std_specs::cmp::PartialEqSpecImpl for Pubkey {
    open spec fn obeys_eq_spec() -> bool {
        true
    }

    open spec fn eq_spec(&self, other: &Pubkey) -> bool {
        self@ == other@
    }
}

impl Eq for Pubkey {
}

impl Pubkey {
    /// The address made of these 32 bytes.
    pub fn new_from_array(bytes: [u8; 32]) -> (key: Pubkey)
        ensures
            key@ == bytes@,
    {
        Pubkey(bytes)
    }

    /// The 32 bytes of the address.
    pub fn to_bytes(&self) -> (bytes: [u8; 32])
        ensures
            bytes@ == self@,
    {
        self.0
    }
}

/// One per pool. Owns both vaults, the LP mint and both treasuries, and is
/// the only authority the token transfers sign with.
#[derive(Debug, Clone, Copy)]
pub struct Config {
    /// Namespaces the pool, so one mint pair can have several.
    pub seed: u64,
    /// Can lock the pool and withdraw treasury fees. Nothing else.
    pub authority: Pubkey,
    pub mint_x: Pubkey,
    pub mint_y: Pubkey,
    /// Charged on swap input, in basis points.
    pub fee_bps: u16,
    /// The treasury's share of `fee_bps`. The remainder stays in the vault
    /// and accrues to the LPs.
    pub protocol_fee_bps: u16,
    pub locked: bool,
    pub bump: u8,
    pub lp_bump: u8,
    pub treasury_x_bump: u8,
    pub treasury_y_bump: u8,
}

impl Config {
    /// The two mints are this pool's pair, in either order.
    pub open spec fn pairs(self, mint_in: Pubkey, mint_out: Pubkey) -> bool {
        (mint_in@ == self.mint_x@ && mint_out@ == self.mint_y@) || (mint_in@ == self.mint_y@
            && mint_out@ == self.mint_x@)
    }

    pub fn holds_pair(&self, mint_in: &Pubkey, mint_out: &Pubkey) -> (r: bool)
        ensures
            r == self.pairs(*mint_in, *mint_out),
    {
        (*mint_in == self.mint_x && *mint_out == self.mint_y) || (*mint_in == self.mint_y
            && *mint_out == self.mint_x)
    }

    /// Treasury bump for one of the pool mints. The seeds include the mint,
    /// so a mint outside the pool derives an account that was never created.
    pub fn treasury_bump(&self, mint: &Pubkey) -> (bump: u8)
        ensures
            bump == (if mint@ == self.mint_x@ {
                self.treasury_x_bump
            } else {
                self.treasury_y_bump
            }),
    {
        if *mint == self.mint_x {
            self.treasury_x_bump
        } else {
            self.treasury_y_bump
        }
    }
}

} // verus!
