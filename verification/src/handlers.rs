//! The operator's two commands for pgmoneta, as far as they decide anything.
//!
//! Each function hands out the first call of its command. Making the calls,
//! and coming back with what they returned, is the caller's part.

use crate::instance::{pgmoneta_instance, stock_instance};
use crate::provision::{provision, provision_start, ProvisionStep};
use crate::retire::{retire, retire_start, RetireStep};
use vstd::prelude::*;

verus! {

/// Begins to provision the stock instance: the first step is the create call
/// for its storage claim.
pub fn handle_provision_pgmoneta() -> (step: ProvisionStep)
    ensures
        step@ == provision_start(stock_instance()),
{
    provision(pgmoneta_instance())
}

/// Begins to retire the stock instance: the first step is the delete call
/// for its network service.
pub fn handle_retire_pgmoneta() -> (step: RetireStep)
    ensures
        step@ == retire_start(stock_instance()),
{
    retire(pgmoneta_instance())
}

} // verus!
