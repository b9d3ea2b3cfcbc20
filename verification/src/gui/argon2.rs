use ncrypt_me::Argon2;
use vstd::prelude::*;

verus! {

/// Smallest memory cost the settings offer, in kibibytes.
pub const MIN_M_COST: u32 = 64_000;

/// Smallest number of iterations the settings offer.
pub const MIN_T_COST: u32 = 8;

/// Smallest degree of parallelism the settings offer.
pub const MIN_P_COST: u32 = 1;

/// Largest memory cost the settings offer, in kibibytes.
pub const MAX_M_COST: u32 = 16384_000;

/// Largest number of iterations the settings offer.
pub const MAX_T_COST: u32 = 2048;

/// Largest degree of parallelism the settings offer.
pub const MAX_P_COST: u32 = 64;

/// The Argon2 parameters that a file is encrypted with (Argon2id, version 0x13).
#[derive(Clone, Copy, PartialEq, Eq, Structural, Debug)]
pub struct Argon2Params {
    /// Memory cost in kibibytes.
    pub m_cost: u32,
    /// Number of iterations.
    pub t_cost: u32,
    /// Degree of parallelism.
    pub p_cost: u32,
    /// Length of the derived hash in bytes.
    pub hash_length: u32,
}

/// The `balanced` preset of the `argon2-rs` crate.
pub open spec fn balanced() -> Argon2Params {
    Argon2Params { m_cost: 1_024_000, t_cost: 8, p_cost: 1, hash_length: 64 }
}

/// The `n` bytes of `x` in little-endian order (higher bytes dropped).
pub open spec fn le_bytes(x: nat, n: nat) -> Seq<u8>
    decreases n,
{
    if n == 0 {
        Seq::empty()
    } else {
        seq![(x % 256) as u8] + le_bytes(x / 256, (n - 1) as nat)
    }
}

/// The 28 bytes under which `argon2-rs` records Argon2id (tag 2), version
/// 0x13, with the costs of `params`: memory, iterations and lanes in four
/// bytes each and the hash length in eight, all little-endian.
pub open spec fn argon2_encoding(params: Argon2Params) -> Seq<u8> {
    le_bytes(params.m_cost as nat, 4) + le_bytes(params.t_cost as nat, 4) + le_bytes(
        params.p_cost as nat,
        4,
    ) + le_bytes(params.hash_length as nat, 8) + le_bytes(2, 4) + le_bytes(0x13, 4)
}

/// Every cost of `params` lies in the range the settings offer for it.
pub open spec fn costs_in_range(params: Argon2Params) -> bool {
    &&& MIN_M_COST <= params.m_cost <= MAX_M_COST
    &&& MIN_T_COST <= params.t_cost <= MAX_T_COST
    &&& MIN_P_COST <= params.p_cost <= MAX_P_COST
}

/// Calls `Argon2::balanced` and reads its costs and hash length; the crate's
/// source sets them to 1_024_000 KiB, 8 iterations, 1 lane and 64 bytes.
#[verifier::external_body]
fn balanced_preset() -> (params: Argon2Params)
    ensures
        params == balanced(),
{
    let preset = Argon2::balanced();
    Argon2Params {
        m_cost: preset.m_cost,
        t_cost: preset.t_cost,
        p_cost: preset.p_cost,
        hash_length: preset.hash_length,
    }
}

/// The Argon2 settings dialog: whether it is shown, and the parameters chosen.
pub struct Argon2Settings {
    open: bool,
    pub params: Argon2Params,
}

impl Argon2Settings {
    /// Whether the dialog is shown.
    pub closed spec fn spec_is_open(&self) -> bool {
        self.open
    }

    /// The parameters chosen.
    pub closed spec fn spec_params(&self) -> Argon2Params {
        self.params
    }

    /// A closed dialog holding the balanced preset.
    pub fn new() -> (settings: Self)
        ensures
            !settings.spec_is_open(),
            settings.spec_params() == balanced(),
            costs_in_range(settings.spec_params()),
    {
        Argon2Settings { open: false, params: balanced_preset() }
    }

    pub fn is_open(&self) -> (open: bool)
        ensures
            open == self.spec_is_open(),
    {
        self.open
    }

    pub fn open(&mut self)
        ensures
            final(self).spec_is_open(),
            final(self).spec_params() == old(self).spec_params(),
    {
        self.open = true;
    }

    pub fn close(&mut self)
        ensures
            !final(self).spec_is_open(),
            final(self).spec_params() == old(self).spec_params(),
    {
        self.open = false;
    }
}

} // verus!
