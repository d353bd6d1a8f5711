//! Addresses and seeds that the hook and the mint's program agree on.

use vstd::prelude::*;

verus! {

/// Seed of the configuration of the mint's program.
pub const SEED: &'static str = "anchor";

/// Only this address is allowed to initialize a configuration:
/// `7pjuYyeNyo2MxeBPeiJ8eTFJgpkSsM28wuNuQTHeHzyT`.
pub const ADMIN: [u8; 32] = [
    101, 96, 239, 1, 155, 20, 225, 111, 35, 240, 203, 101, 160, 153, 180, 179, 13, 123, 47, 115, 223,
    160, 42, 53, 223, 101, 126, 218, 218, 160, 179, 158,
];

/// The address of the hook program: `Dszak9xWCHKeMKbNWx27u4mpo5ADFwqmC4iBS2w3bccZ`.
pub const ID: [u8; 32] = [
    191, 92, 100, 58, 30, 124, 238, 253, 208, 255, 224, 40, 217, 41, 224, 255, 169, 130, 162, 72, 198,
    214, 12, 127, 124, 90, 255, 12, 203, 127, 59, 234,
];

/// The hook program that the mint's transfer-hook extension points at.
pub const TRANSFER_HOOK_PROGRAM_ID: [u8; 32] = ID;

} // verus!
