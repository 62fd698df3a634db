//! Payment rails, intents and receipts: how millicredits are bought.

use crate::identity::Pubkey;
use crate::metering::Millicredits;
use vstd::prelude::*;

verus! {

/// A payment rail.
#[derive(Clone, Copy, Debug, PartialEq, Eq, Structural)]
pub enum Rail {
    BtcOnchain,
    BtcLightning,
    /// Kept on the enum so that the envelope does not change when it is supported.
    Xmr,
}

impl Rail {
    /// The wire name of the rail.
    pub fn as_str(self) -> (r: &'static str)
        ensures
            r@ == match self {
                Rail::BtcOnchain => "btc_onchain"@,
                Rail::BtcLightning => "btc_lightning"@,
                Rail::Xmr => "xmr"@,
            },
    {
        match self {
            Rail::BtcOnchain => "btc_onchain",
            Rail::BtcLightning => "btc_lightning",
            Rail::Xmr => "xmr",
        }
    }
}

/// Where a payment intent stands.
#[derive(Clone, Copy, Debug, PartialEq, Eq, Structural)]
pub enum IntentStatus {
    Open,
    Confirmed,
    Failed,
    Expired,
}

impl IntentStatus {
    /// The wire name of the status.
    pub fn as_str(self) -> (r: &'static str)
        ensures
            r@ == match self {
                IntentStatus::Open => "open"@,
                IntentStatus::Confirmed => "confirmed"@,
                IntentStatus::Failed => "failed"@,
                IntentStatus::Expired => "expired"@,
            },
    {
        match self {
            IntentStatus::Open => "open",
            IntentStatus::Confirmed => "confirmed",
            IntentStatus::Failed => "failed",
            IntentStatus::Expired => "expired",
        }
    }
}

/// A request to pay on a rail, minting millicredits to an account on confirmation.
#[derive(Clone, Debug)]
pub struct PaymentIntent {
    pub id: String,
    pub rail: Rail,
    pub amount_atomic: u64,
    pub mint_account: Pubkey,
    pub millicredits_on_confirm: Millicredits,
    pub status: IntentStatus,
}

/// Proof on a rail that an intent was paid.
#[derive(Clone, Debug)]
pub struct SettlementReceipt {
    pub intent_id: String,
    pub rail: Rail,
    pub rail_ref: String,
}

} // verus!
