use vstd::prelude::*;
use crate::address::{
    derive_signal, derive_subscription, derive_treasury, program_address, signal_seeds,
    subscription_seeds, treasury_seeds, Address, MAX_SEED_LEN,
};
use crate::records::{
    MorpheusError, SignalRecord, SignalRecordView, Subscription, TokenTransfer, Treasury,
};
use vstd::utf8::encode_utf8;

verus! {

/// Seconds in one day of a subscription period.
pub const SECONDS_PER_DAY: i64 = 86400;

/// The record that `records` holds under `key`; the latest wins.
pub open spec fn lookup<T>(records: Seq<(Address, T)>, key: Seq<u8>) -> Option<T>
    decreases records.len(),
{
    if records.len() == 0 {
        None
    } else if records.last().0@ == key {
        Some(records.last().1)
    } else {
        lookup(records.drop_last(), key)
    }
}

proof fn lemma_lookup_push<T>(records: Seq<(Address, T)>, entry: (Address, T), key: Seq<u8>)
    ensures
        lookup(records.push(entry), key) == if entry.0@ == key {
            Some(entry.1)
        } else {
            lookup(records, key)
        },
{
    assert(records.push(entry).drop_last() =~= records);
}

/// Index of the record stored under `key`, if any.
fn find_record<T>(records: &Vec<(Address, T)>, key: &Address) -> (r: Option<usize>)
    ensures
        match r {
            Some(i) => i < records@.len() && lookup(records@, key@) == Some(records@[i as int].1),
            None => lookup(records@, key@) is None,
        },
{
    let mut i: usize = records.len();
    assert(records@.subrange(0, i as int) =~= records@);
    while i > 0
        invariant
            i <= records@.len(),
            lookup(records@, key@) == lookup(records@.subrange(0, i as int), key@),
        decreases i,
    {
        let ghost prefix = records@.subrange(0, i as int);
        if records[i - 1].0.same_as(key) {
            return Some(i - 1);
        }
        assert(prefix.drop_last() =~= records@.subrange(0, i - 1));
        i = i - 1;
    }
    None
}

/// The whole state: the treasury singleton and the records stored at
/// derived addresses of one program.
pub struct Ledger {
    program_id: Address,
    treasury: Option<(Address, Treasury)>,
    subscriptions: Vec<(Address, Subscription)>,
    signals: Vec<(Address, SignalRecord)>,
}

impl Ledger {
    /// The program whose derived addresses this ledger stores records at.
    pub closed spec fn program_id(&self) -> Seq<u8> {
        self.program_id@
    }

    pub closed spec fn treasury_state(&self) -> Option<Treasury> {
        match self.treasury {
            Some((_, t)) => Some(t),
            None => None,
        }
    }

    /// The derived address that holds the treasury, once it exists.
    pub closed spec fn treasury_address(&self) -> Seq<u8> {
        match self.treasury {
            Some((a, _)) => a@,
            None => Seq::empty(),
        }
    }

    /// The subscription stored at the derived address `addr`.
    pub closed spec fn subscription_at(&self, addr: Seq<u8>) -> Option<Subscription> {
        lookup(self.subscriptions@, addr)
    }

    /// The signal record stored at the derived address `addr`.
    pub closed spec fn signal_at(&self, addr: Seq<u8>) -> Option<SignalRecordView> {
        match lookup(self.signals@, addr) {
            Some(rec) => Some(rec@),
            None => None,
        }
    }

    /// The treasury sits at its derived address, and its revenue is the
    /// price times the number of subscribers; each subscription and each
    /// signal record sits at the address derived from its own key.
    pub closed spec fn wf(&self) -> bool {
        &&& forall|k: Seq<u8>| #[trigger] lookup(self.subscriptions@, k) matches Some(s)
            ==> program_address(subscription_seeds(s.subscriber@), self.program_id@) == Some((k, s.bump))
        &&& forall|k: Seq<u8>| #[trigger] lookup(self.signals@, k) matches Some(g)
            ==> program_address(signal_seeds(encode_utf8(g.signal_id@)), self.program_id@) == Some((k, g.bump))
        &&& match self.treasury {
            Some((a, t)) => {
                &&& program_address(treasury_seeds(), self.program_id@) == Some((a@, t.bump))
                &&& t.total_revenue as int == t.total_subscribers as int * t.subscription_price as int
            },
            None => true,
        }
    }

    /// A subscription is stored at the derived address of `subscriber`.
    pub open spec fn holds_subscription(&self, subscriber: Seq<u8>) -> bool {
        match program_address(subscription_seeds(subscriber), self.program_id()) {
            Some((a, _)) => self.subscription_at(a) is Some,
            None => false,
        }
    }

    /// Both ledgers hold the same records at every address.
    pub open spec fn same_records(&self, other: &Ledger) -> bool {
        &&& forall|k: Seq<u8>| #[trigger] self.subscription_at(k) == other.subscription_at(k)
        &&& forall|k: Seq<u8>| #[trigger] self.signal_at(k) == other.signal_at(k)
    }

    /// An empty ledger for the program `program_id`.
    pub fn new(program_id: Address) -> (r: Ledger)
        ensures
            r.wf(),
            r.program_id() == program_id@,
            r.treasury_state() is None,
            forall|k: Seq<u8>| #[trigger] r.subscription_at(k) is None,
            forall|k: Seq<u8>| #[trigger] r.signal_at(k) is None,
    {
        Ledger { program_id, treasury: None, subscriptions: Vec::new(), signals: Vec::new() }
    }

    pub fn program(&self) -> (r: Address)
        ensures
            r@ == self.program_id(),
    {
        self.program_id
    }

    pub fn treasury(&self) -> (r: Option<Treasury>)
        ensures
            r == self.treasury_state(),
    {
        match &self.treasury {
            Some((_, t)) => Some(*t),
            None => None,
        }
    }

    /// Creates the treasury singleton at its derived address, with both
    /// counters at zero. Any price is accepted, zero too.
    pub fn initialize(
        &mut self,
        authority: Address,
        usdc_vault: Address,
        subscription_price: u64,
        subscription_days: u16,
    ) -> (r: Result<(), MorpheusError>)
        requires
            old(self).wf(),
        ensures
            final(self).wf(),
            final(self).program_id() == old(self).program_id(),
            final(self).same_records(old(self)),
            r is Err ==> *final(self) == *old(self),
            old(self).treasury_state() is Some ==> r == Err::<(), _>(MorpheusError::AlreadyInitialized),
            old(self).treasury_state() is None ==> match program_address(treasury_seeds(), old(self).program_id()) {
                None => r == Err::<(), _>(MorpheusError::AddressUnavailable),
                Some((a, bump)) => {
                    &&& r is Ok
                    &&& final(self).treasury_address() == a
                    &&& final(self).treasury_state() == Some((Treasury {
                        authority,
                        usdc_vault,
                        subscription_price,
                        subscription_days,
                        total_subscribers: 0,
                        total_revenue: 0,
                        bump,
                    }))
                },
            },
    {
        if self.treasury.is_some() {
            return Err(MorpheusError::AlreadyInitialized);
        }
        match derive_treasury(&self.program_id) {
            None => Err(MorpheusError::AddressUnavailable),
            Some((address, bump)) => {
                let t = Treasury {
                    authority,
                    usdc_vault,
                    subscription_price,
                    subscription_days,
                    total_subscribers: 0,
                    total_revenue: 0,
                    bump,
                };
                assert(0 * (subscription_price as int) == 0) by (nonlinear_arith);
                self.treasury = Some((address, t));
                Ok(())
            },
        }
    }
    /// The transfer that pays for a subscription of `subscriber`: the price,
    /// from `subscriber_usdc` into the vault, authorised by the subscriber.
    /// Refused, before any funds move, where no treasury exists or the
    /// subscriber already holds a subscription.
    pub fn subscribe_transfer(&self, subscriber: Address, subscriber_usdc: Address) -> (r: Result<TokenTransfer, MorpheusError>)
        requires
            self.wf(),
        ensures
            match self.treasury_state() {
                None => r == Err::<TokenTransfer, _>(MorpheusError::NotInitialized),
                Some(t) => match program_address(subscription_seeds(subscriber@), self.program_id()) {
                    None => r == Err::<TokenTransfer, _>(MorpheusError::AddressUnavailable),
                    Some((a, _)) => if self.subscription_at(a) is Some {
                        r == Err::<TokenTransfer, _>(MorpheusError::AlreadySubscribed)
                    } else {
                        &&& r matches Ok(x)
                        &&& x.from@ == subscriber_usdc@
                        &&& x.to@ == t.usdc_vault@
                        &&& x.authority@ == subscriber@
                        &&& x.amount == t.subscription_price
                        &&& x.signer_bump is None
                    },
                },
            },
    {
        let t = match &self.treasury {
            Some((_, t)) => *t,
            None => return Err(MorpheusError::NotInitialized),
        };
        let address = match derive_subscription(&subscriber, &self.program_id) {
            Some((a, _)) => a,
            None => return Err(MorpheusError::AddressUnavailable),
        };
        if find_record(&self.subscriptions, &address).is_some() {
            return Err(MorpheusError::AlreadySubscribed);
        }
        Ok(TokenTransfer {
            from: subscriber_usdc,
            to: t.usdc_vault,
            authority: subscriber,
            amount: t.subscription_price,
            signer_bump: None,
        })
    }

    /// Records the subscription of `subscriber` starting at `now`, once the
    /// host reports in `paid` whether the transfer of `subscribe_transfer`
    /// went through; on success both counters grow by one subscription.
    pub fn subscribe(&mut self, subscriber: Address, now: i64, paid: bool) -> (r: Result<(), MorpheusError>)
        requires
            old(self).wf(),
        ensures
            final(self).wf(),
            final(self).program_id() == old(self).program_id(),
            final(self).treasury_address() == old(self).treasury_address(),
            r is Err ==> *final(self) == *old(self),
            match old(self).treasury_state() {
                None => r == Err::<(), _>(MorpheusError::NotInitialized),
                Some(t) => if !paid {
                    r == Err::<(), _>(MorpheusError::InsufficientFunds)
                } else {
                    match program_address(subscription_seeds(subscriber@), old(self).program_id()) {
                        None => r == Err::<(), _>(MorpheusError::AddressUnavailable),
                        Some((a, bump)) => if old(self).subscription_at(a) is Some {
                            r == Err::<(), _>(MorpheusError::AlreadySubscribed)
                        } else if t.total_subscribers == u64::MAX
                            || t.total_revenue + t.subscription_price > u64::MAX
                            || now + t.subscription_days * SECONDS_PER_DAY > i64::MAX {
                            r == Err::<(), _>(MorpheusError::ArithmeticOverflow)
                        } else {
                            &&& r is Ok
                            &&& final(self).treasury_state() == Some((Treasury {
                                total_subscribers: (t.total_subscribers + 1) as u64,
                                total_revenue: (t.total_revenue + t.subscription_price) as u64,
                                ..t
                            }))
                            &&& final(self).subscription_at(a) == Some((Subscription {
                                subscriber,
                                started_at: now,
                                expires_at: (now + t.subscription_days * SECONDS_PER_DAY) as i64,
                                is_active: true,
                                bump,
                            }))
                            &&& forall|k: Seq<u8>| k != a ==> #[trigger] final(self).subscription_at(k) == old(self).subscription_at(k)
                            &&& forall|k: Seq<u8>| #[trigger] final(self).signal_at(k) == old(self).signal_at(k)
                        },
                    }
                },
            },
            paid && old(self).treasury_state() is Some && old(self).holds_subscription(subscriber@)
                ==> r == Err::<(), _>(MorpheusError::AlreadySubscribed),
            r is Ok ==> final(self).holds_subscription(subscriber@),
            r is Ok ==> {
                &&& final(self).treasury_state().unwrap().total_subscribers == old(self).treasury_state().unwrap().total_subscribers + 1
                &&& final(self).treasury_state().unwrap().total_revenue
                    == old(self).treasury_state().unwrap().total_revenue + old(self).treasury_state().unwrap().subscription_price
            },
    {
        let (treasury_address, t) = match &self.treasury {
            Some((a, t)) => (*a, *t),
            None => return Err(MorpheusError::NotInitialized),
        };
        if !paid {
            return Err(MorpheusError::InsufficientFunds);
        }
        let (address, bump) = match derive_subscription(&subscriber, &self.program_id) {
            Some(found) => found,
            None => return Err(MorpheusError::AddressUnavailable),
        };
        if find_record(&self.subscriptions, &address).is_some() {
            return Err(MorpheusError::AlreadySubscribed);
        }
        let period: i64 = t.subscription_days as i64 * SECONDS_PER_DAY;
        if t.total_subscribers == u64::MAX || t.total_revenue > u64::MAX - t.subscription_price
            || now > i64::MAX - period {
            return Err(MorpheusError::ArithmeticOverflow);
        }
        let record = Subscription {
            subscriber,
            started_at: now,
            expires_at: now + period,
            is_active: true,
            bump,
        };
        let updated = Treasury {
            total_subscribers: t.total_subscribers + 1,
            total_revenue: t.total_revenue + t.subscription_price,
            ..t
        };
        proof {
            lemma_lookup_push(self.subscriptions@, (address, record), address@);
            assert forall|k: Seq<u8>| k != address@ implies
                lookup(self.subscriptions@.push((address, record)), k) == lookup(self.subscriptions@, k) by {
                lemma_lookup_push(self.subscriptions@, (address, record), k);
            }
            assert forall|k: Seq<u8>| #[trigger] lookup(self.subscriptions@.push((address, record)), k) is Some
                implies program_address(subscription_seeds(lookup(self.subscriptions@.push((address, record)), k).unwrap().subscriber@), self.program_id@)
                    == Some((k, lookup(self.subscriptions@.push((address, record)), k).unwrap().bump)) by {
                lemma_lookup_push(self.subscriptions@, (address, record), k);
            }
            assert((t.total_subscribers + 1) * t.subscription_price
                == t.total_subscribers * t.subscription_price + t.subscription_price) by (nonlinear_arith);
        }
        self.subscriptions.push((address, record));
        self.treasury = Some((treasury_address, updated));
        Ok(())
    }

    /// The transfer of `amount` out of the vault into `authority_usdc`,
    /// signed by the treasury's derived address. Only the treasury's
    /// authority may withdraw, and any amount: the transfer itself refuses
    /// more than the vault holds. The ledger is not changed.
    pub fn withdraw(&self, authority: Address, authority_usdc: Address, amount: u64) -> (r: Result<TokenTransfer, MorpheusError>)
        requires
            self.wf(),
        ensures
            match self.treasury_state() {
                None => r == Err::<TokenTransfer, _>(MorpheusError::NotInitialized),
                Some(t) => if authority@ != t.authority@ {
                    r == Err::<TokenTransfer, _>(MorpheusError::Unauthorized)
                } else {
                    &&& r matches Ok(x)
                    &&& x.from@ == t.usdc_vault@
                    &&& x.to@ == authority_usdc@
                    &&& x.authority@ == self.treasury_address()
                    &&& x.amount == amount
                    &&& x.signer_bump == Some(t.bump)
                    &&& program_address(treasury_seeds(), self.program_id()) == Some((x.authority@, t.bump))
                },
            },
    {
        let (treasury_address, t) = match &self.treasury {
            Some((a, t)) => (*a, *t),
            None => return Err(MorpheusError::NotInitialized),
        };
        if !authority.same_as(&t.authority) {
            return Err(MorpheusError::Unauthorized);
        }
        Ok(TokenTransfer {
            from: t.usdc_vault,
            to: authority_usdc,
            authority: treasury_address,
            amount,
            signer_bump: Some(t.bump),
        })
    }

    /// Whether the subscription of `subscriber` grants access at `now`.
    pub fn check_subscription(&self, subscriber: Address, now: i64) -> (r: Result<bool, MorpheusError>)
        ensures
            match program_address(subscription_seeds(subscriber@), self.program_id()) {
                None => r == Err::<bool, _>(MorpheusError::AddressUnavailable),
                Some((a, _)) => match self.subscription_at(a) {
                    None => r == Err::<bool, _>(MorpheusError::NotFound),
                    Some(s) => r == Ok::<bool, MorpheusError>(s.grants_access(now)),
                },
            },
    {
        let address = match derive_subscription(&subscriber, &self.program_id) {
            Some((a, _)) => a,
            None => return Err(MorpheusError::AddressUnavailable),
        };
        match find_record(&self.subscriptions, &address) {
            None => Err(MorpheusError::NotFound),
            Some(i) => {
                let s = self.subscriptions[i].1;
                Ok(s.is_active && now < s.expires_at)
            },
        }
    }

    /// The subscription of `subscriber`, if one is stored.
    pub fn subscription(&self, subscriber: Address) -> (r: Option<Subscription>)
        ensures
            match program_address(subscription_seeds(subscriber@), self.program_id()) {
                None => r is None,
                Some((a, _)) => r == self.subscription_at(a),
            },
    {
        let address = match derive_subscription(&subscriber, &self.program_id) {
            Some((a, _)) => a,
            None => return None,
        };
        match find_record(&self.subscriptions, &address) {
            None => None,
            Some(i) => Some(self.subscriptions[i].1),
        }
    }

    /// Stores the hash of the signal `signal_id`, issued at `now` by the
    /// treasury's authority. A record once stored is never replaced.
    pub fn store_signal_hash(&mut self, authority: Address, signal_id: String, signal_hash: [u8; 32], now: i64) -> (r: Result<(), MorpheusError>)
        requires
            old(self).wf(),
        ensures
            final(self).wf(),
            final(self).program_id() == old(self).program_id(),
            final(self).treasury_state() == old(self).treasury_state(),
            final(self).treasury_address() == old(self).treasury_address(),
            forall|k: Seq<u8>| #[trigger] final(self).subscription_at(k) == old(self).subscription_at(k),
            r is Err ==> *final(self) == *old(self),
            match old(self).treasury_state() {
                None => r == Err::<(), _>(MorpheusError::NotInitialized),
                Some(t) => if authority@ != t.authority@ {
                    r == Err::<(), _>(MorpheusError::Unauthorized)
                } else if encode_utf8(signal_id@).len() > MAX_SEED_LEN {
                    r == Err::<(), _>(MorpheusError::SignalIdTooLong)
                } else {
                    match program_address(signal_seeds(encode_utf8(signal_id@)), old(self).program_id()) {
                        None => r == Err::<(), _>(MorpheusError::AddressUnavailable),
                        Some((a, bump)) => if old(self).signal_at(a) is Some {
                            r == Err::<(), _>(MorpheusError::DuplicateSignal)
                        } else {
                            &&& r is Ok
                            &&& final(self).signal_at(a) == Some((SignalRecordView {
                                signal_id: signal_id@,
                                signal_hash: signal_hash@,
                                timestamp: now,
                                authority: authority@,
                                bump,
                            }))
                            &&& forall|k: Seq<u8>| k != a ==> #[trigger] final(self).signal_at(k) == old(self).signal_at(k)
                        },
                    }
                },
            },
    {
        let t = match &self.treasury {
            Some((_, t)) => *t,
            None => return Err(MorpheusError::NotInitialized),
        };
        if !authority.same_as(&t.authority) {
            return Err(MorpheusError::Unauthorized);
        }
        if signal_id.as_str().as_bytes().len() > MAX_SEED_LEN {
            return Err(MorpheusError::SignalIdTooLong);
        }
        let (address, bump) = match derive_signal(&signal_id, &self.program_id) {
            Some(found) => found,
            None => return Err(MorpheusError::AddressUnavailable),
        };
        if find_record(&self.signals, &address).is_some() {
            return Err(MorpheusError::DuplicateSignal);
        }
        let record = SignalRecord { signal_id, signal_hash, timestamp: now, authority, bump };
        proof {
            lemma_lookup_push(self.signals@, (address, record), address@);
            assert forall|k: Seq<u8>| k != address@ implies
                lookup(self.signals@.push((address, record)), k) == lookup(self.signals@, k) by {
                lemma_lookup_push(self.signals@, (address, record), k);
            }
            assert forall|k: Seq<u8>| #[trigger] lookup(self.signals@.push((address, record)), k) is Some
                implies program_address(signal_seeds(encode_utf8(lookup(self.signals@.push((address, record)), k).unwrap().signal_id@)), self.program_id@)
                    == Some((k, lookup(self.signals@.push((address, record)), k).unwrap().bump)) by {
                lemma_lookup_push(self.signals@, (address, record), k);
            }
        }
        self.signals.push((address, record));
        Ok(())
    }

    /// The record of the signal `signal_id`, if one is stored.
    pub fn signal_record(&self, signal_id: &String) -> (r: Option<SignalRecord>)
        ensures
            match program_address(signal_seeds(encode_utf8(signal_id@)), self.program_id()) {
                None => r is None,
                Some((a, _)) => match self.signal_at(a) {
                    None => r is None,
                    Some(v) => r matches Some(x) && x@ == v,
                },
            },
    {
        let address = match derive_signal(signal_id, &self.program_id) {
            Some((a, _)) => a,
            None => return None,
        };
        match find_record(&self.signals, &address) {
            None => None,
            Some(i) => Some(self.signals[i].1.duplicate()),
        }
    }

}

/// While the price stays fixed, the treasury's revenue is its price times
/// the number of its subscribers.
pub proof fn lemma_revenue_matches_subscribers(ledger: &Ledger)
    requires
        ledger.wf(),
    ensures
        ledger.treasury_state() matches Some(t) ==> t.total_revenue as int
            == t.total_subscribers as int * t.subscription_price as int,
{
}

/// Every stored record sits at the address derived from its own key, with
/// the bump seed of that derivation.
pub proof fn lemma_records_sit_at_derived_addresses(ledger: &Ledger)
    requires
        ledger.wf(),
    ensures
        forall|k: Seq<u8>| #[trigger] ledger.subscription_at(k) matches Some(s)
            ==> program_address(subscription_seeds(s.subscriber@), ledger.program_id()) == Some((k, s.bump)),
        forall|k: Seq<u8>| #[trigger] ledger.signal_at(k) matches Some(g)
            ==> program_address(signal_seeds(encode_utf8(g.signal_id)), ledger.program_id()) == Some((k, g.bump)),
{
    assert forall|k: Seq<u8>| #[trigger] ledger.signal_at(k) is Some implies program_address(
        signal_seeds(encode_utf8(ledger.signal_at(k).unwrap().signal_id)),
        ledger.program_id(),
    ) == Some((k, ledger.signal_at(k).unwrap().bump)) by {
        assert(lookup(ledger.signals@, k) is Some);
    }
}

} // verus!
