use vstd::prelude::*;
use crate::address::Address;

verus! {

/// Why an operation on the ledger was refused. A refused operation changes
/// nothing.
#[derive(Clone, Copy, Debug, PartialEq, Eq, Structural)]
pub enum MorpheusError {
    /// The subscription's period has ended.
    SubscriptionExpired,
    /// The caller is not the treasury's authority.
    Unauthorized,
    /// The token transfer that pays for an operation did not go through.
    InsufficientFunds,
    /// The treasury already exists.
    AlreadyInitialized,
    /// The treasury does not exist yet.
    NotInitialized,
    /// The subscriber's derived address already holds a subscription.
    AlreadySubscribed,
    /// The signal identifier's derived address already holds a record.
    DuplicateSignal,
    /// No record is stored at the derived address.
    NotFound,
    /// The signal identifier is longer than a derivation seed may be.
    SignalIdTooLong,
    /// The runtime yields no derived address for these seeds.
    AddressUnavailable,
    /// A counter or a timestamp would leave its integer range.
    ArithmeticOverflow,
}

/// The singleton configuration and running totals.
#[derive(Clone, Copy, Debug)]
pub struct Treasury {
    pub authority: Address,
    pub usdc_vault: Address,
    pub subscription_price: u64,
    pub subscription_days: u16,
    pub total_subscribers: u64,
    pub total_revenue: u64,
    pub bump: u8,
}

/// A time-boxed access grant of one subscriber.
#[derive(Clone, Copy, Debug)]
pub struct Subscription {
    pub subscriber: Address,
    pub started_at: i64,
    pub expires_at: i64,
    pub is_active: bool,
    pub bump: u8,
}

impl Subscription {
    /// Access is granted while the flag is set and the period has not ended;
    /// the flag itself is never cleared on expiry.
    pub open spec fn grants_access(&self, now: i64) -> bool {
        self.is_active && now < self.expires_at
    }
}

/// An authority-issued record of the hash of a signal's content.
#[derive(Debug)]
pub struct SignalRecord {
    pub signal_id: String,
    pub signal_hash: [u8; 32],
    pub timestamp: i64,
    pub authority: Address,
    pub bump: u8,
}

pub struct SignalRecordView {
    pub signal_id: Seq<char>,
    pub signal_hash: Seq<u8>,
    pub timestamp: i64,
    pub authority: Seq<u8>,
    pub bump: u8,
}

impl View for SignalRecord {
    type V = SignalRecordView;

    open spec fn view(&self) -> SignalRecordView {
        SignalRecordView {
            signal_id: self.signal_id@,
            signal_hash: self.signal_hash@,
            timestamp: self.timestamp,
            authority: self.authority@,
            bump: self.bump,
        }
    }
}

impl SignalRecord {
    pub fn duplicate(&self) -> (r: SignalRecord)
        ensures
            r@ == self@,
    {
        SignalRecord {
            signal_id: self.signal_id.clone(),
            signal_hash: self.signal_hash,
            timestamp: self.timestamp,
            authority: self.authority,
            bump: self.bump,
        }
    }
}

/// A token transfer that the host is to perform: `amount` units from `from`
/// to `to`, authorised by `authority`. Where `signer_bump` is given, the
/// authority is the treasury's derived address and signs with the treasury
/// tag and that bump seed.
#[derive(Clone, Copy, Debug)]
pub struct TokenTransfer {
    pub from: Address,
    pub to: Address,
    pub authority: Address,
    pub amount: u64,
    pub signer_bump: Option<u8>,
}

} // verus!
