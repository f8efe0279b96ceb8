use vstd::prelude::*;
use crate::coordinator::{try_claim, transaction_type_for, LocalLock, TransactionType, within_grace};
use crate::extractor::{price_from_response, price_in_body, HttpError};
use crate::history::{PriceHistory, Smoothing, last_n, predict_spec};

verus! {

pub type BlockNumber = u64;

pub type AccountId = u64;

/// A price as other modules read it, in cents.
pub type SymbolPrice = u128;

/// How many blocks an admitted unsigned submission stays valid in the pool.
pub const UNSIGNED_LONGEVITY: u64 = 5;

/// The parameters a deployment fixes.
#[derive(Clone, Copy, Debug)]
pub struct Config {
    /// Fewest blocks between two local claims to submit.
    pub grace_period: u64,
    /// Blocks after an accepted unsigned submission before the next is admitted.
    pub unsigned_interval: u64,
    /// Base priority of an admitted unsigned submission.
    pub unsigned_priority: u64,
    /// Capacity of the price history.
    pub max_prices: u32,
    /// Weight of the moving average.
    pub smoothing: Smoothing,
}

/// Who sends a call: a signed account, or nobody for an unsigned call.
#[derive(PartialEq, Eq, Structural, Clone, Copy, Debug)]
pub enum Origin {
    Signed(AccountId),
    Unsigned,
}

#[derive(PartialEq, Eq, Structural, Clone, Copy, Debug)]
pub enum Event {
    SomethingStored(u32, AccountId),
    NewPrice { price: u32, maybe_who: Option<AccountId> },
}

#[derive(PartialEq, Eq, Structural, Clone, Copy, Debug)]
pub enum Error {
    NoneValue,
    StorageOverflow,
    NotSupportedSymbol,
}

/// Why an unsigned submission is not admitted.
#[derive(PartialEq, Eq, Structural, Clone, Copy, Debug)]
pub enum InvalidTransaction {
    /// Its block lies before the next accepted slot.
    Stale,
    /// Its block lies after the current block.
    Future,
    /// Its signed payload does not carry a valid signature.
    BadProof,
    /// It is not a call that may be sent unsigned.
    Call,
}

#[derive(PartialEq, Eq, Structural, Clone, Copy, Debug)]
pub enum DispatchError {
    BadOrigin,
    Module(Error),
    Invalid(InvalidTransaction),
}

/// How the pool is to hold an admitted unsigned submission.
#[derive(PartialEq, Eq, Structural, Clone, Copy, Debug)]
pub struct ValidTransaction {
    pub priority: u64,
    /// The slot it takes: of submissions that name one slot the pool keeps one.
    pub provides: BlockNumber,
    pub longevity: u64,
    pub propagate: bool,
}

/// A price and the block it was fetched at, signed by a local key.
#[derive(PartialEq, Eq, Clone, Copy, Debug)]
pub struct PricePayload {
    pub block_number: BlockNumber,
    pub price: u32,
    pub public: [u8; 32],
}

impl PricePayload {
    pub fn public(&self) -> (r: [u8; 32])
        ensures
            r == self.public,
    {
        self.public
    }
}

/// The calls that the oracle accepts.
#[derive(PartialEq, Eq, Clone, Copy, Debug)]
pub enum Call {
    DoSomething { something: u32 },
    CauseError,
    SubmitPrice { price: u32 },
    SubmitPriceUnsigned { block_number: BlockNumber, price: u32 },
    SubmitPriceUnsignedWithSignedPayload { price_payload: PricePayload, signature: [u8; 64] },
}

/// Why a worker round ends without sending anything.
#[derive(PartialEq, Eq, Structural, Clone, Copy, Debug)]
pub enum WorkerError {
    /// The next accepted slot lies after the current block.
    TooEarly,
    /// The price could not be fetched.
    FetchFailed,
    /// No local key can sign a payload.
    NoLocalAccount,
    /// The transaction pool refused the transaction.
    SubmitFailed,
    /// The round chose a kind of transaction that workers do not send.
    InvalidTxType,
}

/// What a worker round does after its claim attempt.
#[derive(PartialEq, Eq, Structural, Clone, Copy, Debug)]
pub enum WorkerPlan {
    Idle,
    SendRawUnsigned,
}

/// The one symbol the oracle serves.
pub open spec fn supported_symbol() -> Seq<u8> {
    seq![66u8, 84u8, 67u8, 95u8, 85u8, 83u8, 68u8, 84u8]
}

/// `|price - predicted| * 100 / predicted`, or zero before any prediction.
pub open spec fn change_percent(predicted: u32, price: u32) -> int {
    if predicted > 0 {
        let delta = if predicted > price { predicted - price } else { price - predicted };
        delta * 100 / predicted as int
    } else {
        0
    }
}

/// `base + percent * 1000`, saturating at `u64::MAX`.
pub open spec fn priority_of(base: u64, percent: int) -> u64 {
    if base + percent * 1000 > u64::MAX {
        u64::MAX
    } else {
        (base + percent * 1000) as u64
    }
}

/// The admission decision for an unsigned submission of `price` made at
/// `submitted_at`, by a node at block `current` whose next accepted slot is
/// `next_slot` and whose prediction is `predicted`.
pub open spec fn admission(
    next_slot: u64,
    current: u64,
    predicted: u32,
    base: u64,
    submitted_at: u64,
    price: u32,
) -> Result<ValidTransaction, InvalidTransaction> {
    if next_slot > submitted_at {
        Err(InvalidTransaction::Stale)
    } else if current < submitted_at {
        Err(InvalidTransaction::Future)
    } else {
        Ok(
            ValidTransaction {
                priority: priority_of(base, change_percent(predicted, price)),
                provides: next_slot,
                longevity: UNSIGNED_LONGEVITY,
                propagate: true,
            },
        )
    }
}

/// The next accepted slot after an unsigned submission is applied at block `current`.
pub open spec fn slot_after(current: u64, interval: u64) -> u64 {
    if current + interval > u64::MAX {
        u64::MAX
    } else {
        (current + interval) as u64
    }
}

/// The ledger state of the oracle.
pub struct Pallet {
    config: Config,
    something: Option<u32>,
    prices: PriceHistory,
    next_predicted_price: (u32, BlockNumber),
    next_unsigned_at: BlockNumber,
    block_number: BlockNumber,
    events: Vec<Event>,
}

impl Pallet {
    pub closed spec fn spec_config(&self) -> Config {
        self.config
    }

    pub closed spec fn spec_something(&self) -> Option<u32> {
        self.something
    }

    pub closed spec fn spec_prices(&self) -> Seq<u32> {
        self.prices@
    }

    pub closed spec fn spec_predicted(&self) -> (u32, BlockNumber) {
        self.next_predicted_price
    }

    pub closed spec fn spec_next_unsigned_at(&self) -> BlockNumber {
        self.next_unsigned_at
    }

    pub closed spec fn spec_block(&self) -> BlockNumber {
        self.block_number
    }

    pub closed spec fn spec_events(&self) -> Seq<Event> {
        self.events@
    }

    pub closed spec fn wf(&self) -> bool {
        &&& self.prices.wf()
        &&& self.prices.capacity() == self.config.max_prices
        &&& self.config.smoothing.valid()
        &&& self.next_predicted_price.1 <= self.block_number
    }

    /// Every state keeps its history within its capacity.
    pub proof fn lemma_wf_bounds(&self)
        requires
            self.wf(),
        ensures
            self.spec_prices().len() <= self.spec_config().max_prices,
            self.spec_predicted().1 <= self.spec_block(),
            self.spec_config().smoothing.valid(),
    {
        self.prices.lemma_len_within_capacity();
    }

    /// The state at genesis: block zero, no prices, no prediction.
    pub fn new(config: Config) -> (r: Pallet)
        requires
            config.smoothing.valid(),
        ensures
            r.wf(),
            r.spec_config() == config,
            r.spec_something() is None,
            r.spec_prices() == Seq::<u32>::empty(),
            r.spec_predicted() == (0u32, 0u64),
            r.spec_next_unsigned_at() == 0,
            r.spec_block() == 0,
            r.spec_events() == Seq::<Event>::empty(),
    {
        Pallet {
            config,
            something: None,
            prices: PriceHistory::new(config.max_prices),
            next_predicted_price: (0, 0),
            next_unsigned_at: 0,
            block_number: 0,
            events: Vec::new(),
        }
    }

    /// Moves to block `n`; blocks never go back, so a smaller `n` is refused.
    pub fn set_block_number(&mut self, n: BlockNumber) -> (r: bool)
        requires
            old(self).wf(),
        ensures
            final(self).wf(),
            r == (n >= old(self).spec_block()),
            final(self).spec_block() == if r { n } else { old(self).spec_block() },
            final(self).spec_config() == old(self).spec_config(),
            final(self).spec_something() == old(self).spec_something(),
            final(self).spec_prices() == old(self).spec_prices(),
            final(self).spec_predicted() == old(self).spec_predicted(),
            final(self).spec_next_unsigned_at() == old(self).spec_next_unsigned_at(),
            final(self).spec_events() == old(self).spec_events(),
    {
        if n >= self.block_number {
            self.block_number = n;
            true
        } else {
            false
        }
    }

    /// The predicted next price from the current history.
    pub fn calc_ema(&self) -> (r: Option<u32>)
        requires
            self.wf(),
        ensures
            r == predict_spec(self.spec_prices(), self.spec_config().smoothing),
    {
        self.prices.predict(&self.config.smoothing)
    }

    /// Appends `price` to the history, evicting the oldest when it is full;
    /// then, if the history predicts a price, records it with the current block.
    fn add_price(&mut self, maybe_who: Option<AccountId>, price: u32)
        requires
            old(self).wf(),
        ensures
            final(self).wf(),
            final(self).spec_prices() == last_n(old(self).spec_prices().push(price), old(self).spec_config().max_prices as nat),
            final(self).spec_predicted() == match predict_spec(final(self).spec_prices(), old(self).spec_config().smoothing) {
                Some(v) => (v, old(self).spec_block()),
                None => old(self).spec_predicted(),
            },
            final(self).spec_events() == old(self).spec_events().push(Event::NewPrice { price, maybe_who }),
            final(self).spec_config() == old(self).spec_config(),
            final(self).spec_something() == old(self).spec_something(),
            final(self).spec_next_unsigned_at() == old(self).spec_next_unsigned_at(),
            final(self).spec_block() == old(self).spec_block(),
    {
        self.prices.accept(price);
        let predicted = self.prices.predict(&self.config.smoothing);
        match predicted {
            Some(v) => {
                self.next_predicted_price = (v, self.block_number);
            },
            None => {},
        }
        self.events.push(Event::NewPrice { price, maybe_who });
    }

    /// How far `new_price` lies from the prediction, in whole percent of the
    /// prediction; zero while nothing is predicted.
    pub fn calc_price_change_percent(&self, new_price: u32) -> (r: u64)
        ensures
            r == change_percent(self.spec_predicted().0, new_price),
            r <= 100 * u32::MAX,
    {
        let predicted = self.next_predicted_price.0;
        if predicted > 0 {
            let delta: u64 = if predicted > new_price {
                (predicted - new_price) as u64
            } else {
                (new_price - predicted) as u64
            };
            let scaled: u64 = delta * 100;
            assert(scaled / (predicted as u64) <= scaled) by (nonlinear_arith)
                requires predicted > 0, scaled >= 0;
            scaled / (predicted as u64)
        } else {
            0
        }
    }

    /// Decides whether an unsigned submission of `new_price`, made at
    /// `block_number`, enters the pool, and with what priority and slot.
    pub fn validate_transaction_parameters(&self, block_number: BlockNumber, new_price: u32) -> (r: Result<ValidTransaction, InvalidTransaction>)
        ensures
            r == admission(
                self.spec_next_unsigned_at(),
                self.spec_block(),
                self.spec_predicted().0,
                self.spec_config().unsigned_priority,
                block_number,
                new_price,
            ),
    {
        if self.next_unsigned_at > block_number {
            return Err(InvalidTransaction::Stale);
        }
        if self.block_number < block_number {
            return Err(InvalidTransaction::Future);
        }
        let percent = self.calc_price_change_percent(new_price);
        let priority = self.config.unsigned_priority.saturating_add(percent * 1000);
        Ok(ValidTransaction {
            priority,
            provides: self.next_unsigned_at,
            longevity: UNSIGNED_LONGEVITY,
            propagate: true,
        })
    }

    /// Admits an unsigned call to the pool. Only the two unsigned price
    /// calls are admitted; `signature_ok` is the signing subsystem's verdict
    /// on the signature of a signed payload.
    pub fn validate_unsigned(&self, call: &Call, signature_ok: bool) -> (r: Result<ValidTransaction, InvalidTransaction>)
        ensures
            r == match *call {
                Call::SubmitPriceUnsigned { block_number, price } => admission(
                    self.spec_next_unsigned_at(),
                    self.spec_block(),
                    self.spec_predicted().0,
                    self.spec_config().unsigned_priority,
                    block_number,
                    price,
                ),
                Call::SubmitPriceUnsignedWithSignedPayload { price_payload, signature } => if !signature_ok {
                    Err(InvalidTransaction::BadProof)
                } else {
                    admission(
                        self.spec_next_unsigned_at(),
                        self.spec_block(),
                        self.spec_predicted().0,
                        self.spec_config().unsigned_priority,
                        price_payload.block_number,
                        price_payload.price,
                    )
                },
                _ => Err(InvalidTransaction::Call),
            },
    {
        match call {
            Call::SubmitPriceUnsignedWithSignedPayload { price_payload, signature: _ } => {
                if !signature_ok {
                    return Err(InvalidTransaction::BadProof);
                }
                self.validate_transaction_parameters(price_payload.block_number, price_payload.price)
            },
            Call::SubmitPriceUnsigned { block_number, price } => {
                self.validate_transaction_parameters(*block_number, *price)
            },
            _ => Err(InvalidTransaction::Call),
        }
    }

    /// Stores `something` for a signed caller and records who stored it.
    pub fn do_something(&mut self, origin: Origin, something: u32) -> (r: Result<(), DispatchError>)
        requires
            old(self).wf(),
        ensures
            final(self).wf(),
            origin is Unsigned ==> r == Err::<(), DispatchError>(DispatchError::BadOrigin) && *final(self) == *old(self),
            origin matches Origin::Signed(who) ==> r is Ok
                && final(self).spec_something() == Some(something)
                && final(self).spec_events() == old(self).spec_events().push(Event::SomethingStored(something, who))
                && final(self).spec_prices() == old(self).spec_prices()
                && final(self).spec_predicted() == old(self).spec_predicted()
                && final(self).spec_next_unsigned_at() == old(self).spec_next_unsigned_at()
                && final(self).spec_block() == old(self).spec_block()
                && final(self).spec_config() == old(self).spec_config(),
    {
        match origin {
            Origin::Signed(who) => {
                self.something = Some(something);
                self.events.push(Event::SomethingStored(something, who));
                Ok(())
            },
            Origin::Unsigned => Err(DispatchError::BadOrigin),
        }
    }

    /// Adds one to the stored value for a signed caller: an error when
    /// nothing is stored, or when the sum would overflow.
    pub fn cause_error(&mut self, origin: Origin) -> (r: Result<(), DispatchError>)
        requires
            old(self).wf(),
        ensures
            final(self).wf(),
            r is Err ==> *final(self) == *old(self),
            origin is Unsigned ==> r == Err::<(), DispatchError>(DispatchError::BadOrigin),
            origin is Signed ==> r == match old(self).spec_something() {
                None => Err(DispatchError::Module(Error::NoneValue)),
                Some(v) => if v == u32::MAX {
                    Err(DispatchError::Module(Error::StorageOverflow))
                } else {
                    Ok::<(), DispatchError>(())
                },
            },
            r is Ok ==> final(self).spec_something() == Some((old(self).spec_something().unwrap() + 1) as u32)
                && final(self).spec_events() == old(self).spec_events()
                && final(self).spec_prices() == old(self).spec_prices()
                && final(self).spec_predicted() == old(self).spec_predicted()
                && final(self).spec_next_unsigned_at() == old(self).spec_next_unsigned_at()
                && final(self).spec_block() == old(self).spec_block()
                && final(self).spec_config() == old(self).spec_config(),
    {
        if origin == Origin::Unsigned {
            return Err(DispatchError::BadOrigin);
        }
        match self.something {
            None => Err(DispatchError::Module(Error::NoneValue)),
            Some(old_value) => match old_value.checked_add(1) {
                None => Err(DispatchError::Module(Error::StorageOverflow)),
                Some(new_value) => {
                    self.something = Some(new_value);
                    Ok(())
                },
            },
        }
    }

    /// Accepts a price from a signed, fee-paying caller: it goes straight
    /// into the history, bypassing the slot scheme.
    pub fn submit_price(&mut self, origin: Origin, price: u32) -> (r: Result<(), DispatchError>)
        requires
            old(self).wf(),
        ensures
            final(self).wf(),
            origin is Unsigned ==> r == Err::<(), DispatchError>(DispatchError::BadOrigin) && *final(self) == *old(self),
            origin matches Origin::Signed(who) ==> r is Ok
                && final(self).spec_prices() == last_n(old(self).spec_prices().push(price), old(self).spec_config().max_prices as nat)
                && final(self).spec_predicted() == match predict_spec(final(self).spec_prices(), old(self).spec_config().smoothing) {
                    Some(v) => (v, old(self).spec_block()),
                    None => old(self).spec_predicted(),
                }
                && final(self).spec_events() == old(self).spec_events().push(Event::NewPrice { price, maybe_who: Some(who) })
                && final(self).spec_next_unsigned_at() == old(self).spec_next_unsigned_at()
                && final(self).spec_something() == old(self).spec_something()
                && final(self).spec_block() == old(self).spec_block()
                && final(self).spec_config() == old(self).spec_config(),
    {
        match origin {
            Origin::Signed(who) => {
                self.add_price(Some(who), price);
                Ok(())
            },
            Origin::Unsigned => Err(DispatchError::BadOrigin),
        }
    }

    /// Applies an admitted unsigned price.
    fn apply_unsigned(&mut self, price: u32)
        requires
            old(self).wf(),
        ensures
            final(self).wf(),
            final(self).spec_prices() == last_n(old(self).spec_prices().push(price), old(self).spec_config().max_prices as nat),
            final(self).spec_predicted() == match predict_spec(final(self).spec_prices(), old(self).spec_config().smoothing) {
                Some(v) => (v, old(self).spec_block()),
                None => old(self).spec_predicted(),
            },
            final(self).spec_events() == old(self).spec_events().push(Event::NewPrice { price, maybe_who: None }),
            final(self).spec_next_unsigned_at() == slot_after(old(self).spec_block(), old(self).spec_config().unsigned_interval),
            final(self).spec_something() == old(self).spec_something(),
            final(self).spec_block() == old(self).spec_block(),
            final(self).spec_config() == old(self).spec_config(),
    {
        self.add_price(None, price);
        self.next_unsigned_at = self.block_number.saturating_add(self.config.unsigned_interval);
    }

    /// Accepts an unsigned price submitted at `block_number`. The call is held
    /// to the admission rule first, as the ledger does before it applies an
    /// unsigned call; once applied, the next accepted slot moves to the
    /// current block plus the unsigned interval.
    pub fn submit_price_unsigned(&mut self, origin: Origin, block_number: BlockNumber, price: u32) -> (r: Result<(), DispatchError>)
        requires
            old(self).wf(),
        ensures
            final(self).wf(),
            r is Err ==> *final(self) == *old(self),
            origin is Signed ==> r == Err::<(), DispatchError>(DispatchError::BadOrigin),
            origin is Unsigned ==> r == match admission(
                old(self).spec_next_unsigned_at(),
                old(self).spec_block(),
                old(self).spec_predicted().0,
                old(self).spec_config().unsigned_priority,
                block_number,
                price,
            ) {
                Ok(_) => Ok::<(), DispatchError>(()),
                Err(e) => Err(DispatchError::Invalid(e)),
            },
            r is Ok ==> final(self).spec_prices() == last_n(old(self).spec_prices().push(price), old(self).spec_config().max_prices as nat)
                && final(self).spec_predicted() == match predict_spec(final(self).spec_prices(), old(self).spec_config().smoothing) {
                    Some(v) => (v, old(self).spec_block()),
                    None => old(self).spec_predicted(),
                }
                && final(self).spec_events() == old(self).spec_events().push(Event::NewPrice { price, maybe_who: None })
                && final(self).spec_next_unsigned_at() == slot_after(old(self).spec_block(), old(self).spec_config().unsigned_interval)
                && final(self).spec_something() == old(self).spec_something()
                && final(self).spec_block() == old(self).spec_block()
                && final(self).spec_config() == old(self).spec_config(),
    {
        if origin != Origin::Unsigned {
            return Err(DispatchError::BadOrigin);
        }
        match self.validate_transaction_parameters(block_number, price) {
            Err(e) => Err(DispatchError::Invalid(e)),
            Ok(_) => {
                self.apply_unsigned(price);
                Ok(())
            },
        }
    }

    /// Accepts an unsigned price carried in a signed payload; `signature_ok`
    /// is the signing subsystem's verdict on `_signature`. Otherwise as
    /// `submit_price_unsigned`.
    pub fn submit_price_unsigned_with_signed_payload(
        &mut self,
        origin: Origin,
        price_payload: PricePayload,
        _signature: [u8; 64],
        signature_ok: bool,
    ) -> (r: Result<(), DispatchError>)
        requires
            old(self).wf(),
        ensures
            final(self).wf(),
            r is Err ==> *final(self) == *old(self),
            origin is Signed ==> r == Err::<(), DispatchError>(DispatchError::BadOrigin),
            origin is Unsigned && !signature_ok ==> r == Err::<(), DispatchError>(DispatchError::Invalid(InvalidTransaction::BadProof)),
            origin is Unsigned && signature_ok ==> r == match admission(
                old(self).spec_next_unsigned_at(),
                old(self).spec_block(),
                old(self).spec_predicted().0,
                old(self).spec_config().unsigned_priority,
                price_payload.block_number,
                price_payload.price,
            ) {
                Ok(_) => Ok::<(), DispatchError>(()),
                Err(e) => Err(DispatchError::Invalid(e)),
            },
            r is Ok ==> final(self).spec_prices() == last_n(old(self).spec_prices().push(price_payload.price), old(self).spec_config().max_prices as nat)
                && final(self).spec_predicted() == match predict_spec(final(self).spec_prices(), old(self).spec_config().smoothing) {
                    Some(v) => (v, old(self).spec_block()),
                    None => old(self).spec_predicted(),
                }
                && final(self).spec_events() == old(self).spec_events().push(Event::NewPrice { price: price_payload.price, maybe_who: None })
                && final(self).spec_next_unsigned_at() == slot_after(old(self).spec_block(), old(self).spec_config().unsigned_interval)
                && final(self).spec_something() == old(self).spec_something()
                && final(self).spec_block() == old(self).spec_block()
                && final(self).spec_config() == old(self).spec_config(),
    {
        if origin != Origin::Unsigned {
            return Err(DispatchError::BadOrigin);
        }
        if !signature_ok {
            return Err(DispatchError::Invalid(InvalidTransaction::BadProof));
        }
        match self.validate_transaction_parameters(price_payload.block_number, price_payload.price) {
            Err(e) => Err(DispatchError::Invalid(e)),
            Ok(_) => {
                self.apply_unsigned(price_payload.price);
                Ok(())
            },
        }
    }

    pub fn config(&self) -> (r: Config)
        ensures
            r == self.spec_config(),
    {
        self.config
    }

    pub fn something(&self) -> (r: Option<u32>)
        ensures
            r == self.spec_something(),
    {
        self.something
    }

    /// The accepted prices, oldest first.
    pub fn prices(&self) -> (r: Vec<u32>)
        ensures
            r@ == self.spec_prices(),
    {
        self.prices.to_vec()
    }

    /// The last prediction and the block it was made at.
    pub fn next_predicted_price(&self) -> (r: (u32, BlockNumber))
        ensures
            r == self.spec_predicted(),
    {
        self.next_predicted_price
    }

    /// The first block at which an unsigned submission is admitted.
    pub fn next_unsigned_at(&self) -> (r: BlockNumber)
        ensures
            r == self.spec_next_unsigned_at(),
    {
        self.next_unsigned_at
    }

    pub fn block_number(&self) -> (r: BlockNumber)
        ensures
            r == self.spec_block(),
    {
        self.block_number
    }

    /// The events deposited so far, oldest first.
    pub fn events(&self) -> (r: Vec<Event>)
        ensures
            r@ == self.spec_events(),
    {
        let mut out: Vec<Event> = Vec::new();
        let mut i: usize = 0;
        while i < self.events.len()
            invariant
                i <= self.events@.len(),
                out@ == self.events@.subrange(0, i as int),
            decreases self.events@.len() - i,
        {
            out.push(self.events[i]);
            i = i + 1;
        }
        assert(self.events@.subrange(0, self.events@.len() as int) =~= self.events@);
        out
    }

    /// Claims the node-local lock at `block_number` and picks what to send:
    /// a raw unsigned transaction when the claim succeeds, nothing when the
    /// last claim is within the grace period or another run won the race.
    pub fn choose_transaction_type(&self, lock: &mut LocalLock, block_number: BlockNumber) -> (r: TransactionType)
        ensures
            r == TransactionType::Raw <==> !(old(lock)@ matches Some(l) && within_grace(l, block_number, self.spec_config().grace_period)),
            r == TransactionType::Raw || r == TransactionType::Nothing,
            r == TransactionType::Raw ==> final(lock)@ == Some(block_number),
            r != TransactionType::Raw ==> final(lock)@ == old(lock)@,
    {
        let outcome = try_claim(lock, block_number, self.config.grace_period);
        transaction_type_for(outcome)
    }

    /// Whether an unsigned submission made now could be admitted: too early
    /// while the next accepted slot lies after `block_number`.
    pub fn check_unsigned_window(&self, block_number: BlockNumber) -> (r: Result<(), WorkerError>)
        ensures
            r is Ok <==> self.spec_next_unsigned_at() <= block_number,
            r is Err ==> r == Err::<(), WorkerError>(WorkerError::TooEarly),
    {
        if self.next_unsigned_at > block_number {
            Err(WorkerError::TooEarly)
        } else {
            Ok(())
        }
    }

    /// The price of the supported symbol: the prediction while it was made
    /// at or after the current block, else the newest accepted price.
    /// `None` for any other symbol, and while there is nothing to serve.
    pub fn get_price(&self, symbol: &Vec<u8>) -> (r: Option<SymbolPrice>)
        ensures
            symbol@ != supported_symbol() ==> r is None,
            symbol@ == supported_symbol() && self.spec_predicted().1 >= self.spec_block()
                ==> r == Some(self.spec_predicted().0 as SymbolPrice),
            symbol@ == supported_symbol() && self.spec_predicted().1 < self.spec_block()
                ==> r == if self.spec_prices().len() == 0 { None } else { Some(self.spec_prices().last() as SymbolPrice) },
    {
        if !is_supported_symbol(symbol) {
            return None;
        }
        let (predicted, predicted_at) = self.next_predicted_price;
        if predicted_at >= self.block_number {
            Some(predicted as SymbolPrice)
        } else {
            match self.prices.latest() {
                Some(p) => Some(p as SymbolPrice),
                None => None,
            }
        }
    }

    /// Prices are not kept by timestamp, so none is ever found.
    pub fn get_price_at(&self, _symbol: &Vec<u8>, _unix_ts: Option<u64>) -> (r: Option<SymbolPrice>)
        ensures
            r is None,
    {
        None
    }
}

/// Whether `symbol` is the one symbol the oracle serves.
pub fn is_supported_symbol(symbol: &Vec<u8>) -> (r: bool)
    ensures
        r == (symbol@ == supported_symbol()),
{
    let r = symbol.len() == 8 && symbol[0] == 66u8 && symbol[1] == 84u8 && symbol[2] == 67u8 && symbol[3] == 95u8
        && symbol[4] == 85u8 && symbol[5] == 83u8 && symbol[6] == 68u8 && symbol[7] == 84u8;
    proof {
        if r {
            assert(symbol@ =~= supported_symbol());
        }
    }
    r
}

/// The price from a live HTTP response, outside the history; `None` when
/// the response does not carry one.
pub fn fetch_live_price(_symbol: &Vec<u8>, code: u16, body: &[u8]) -> (r: Option<SymbolPrice>)
    ensures
        code != 200 ==> r is None,
        code == 200 ==> r == match price_in_body(body@) {
            Some(p) => Some(p as SymbolPrice),
            None => None,
        },
{
    match price_from_response(code, body) {
        Ok(p) => Some(p as SymbolPrice),
        Err(_) => None,
    }
}

/// What a worker does with the transaction kind it chose: send a raw
/// unsigned transaction, do nothing, or fail on a kind it does not send.
pub fn plan_round(tx: TransactionType) -> (r: Result<WorkerPlan, WorkerError>)
    ensures
        r == match tx {
            TransactionType::Raw => Ok(WorkerPlan::SendRawUnsigned),
            TransactionType::Nothing => Ok::<WorkerPlan, WorkerError>(WorkerPlan::Idle),
            _ => Err(WorkerError::InvalidTxType),
        },
{
    match tx {
        TransactionType::Raw => Ok(WorkerPlan::SendRawUnsigned),
        TransactionType::Nothing => Ok(WorkerPlan::Idle),
        _ => Err(WorkerError::InvalidTxType),
    }
}

/// The unsigned call that carries a fetched price.
pub fn raw_unsigned_call(block_number: BlockNumber, fetched: Result<u32, HttpError>) -> (r: Result<Call, WorkerError>)
    ensures
        r == match fetched {
            Ok(price) => Ok(Call::SubmitPriceUnsigned { block_number, price }),
            Err(_) => Err::<Call, WorkerError>(WorkerError::FetchFailed),
        },
{
    match fetched {
        Ok(price) => Ok(Call::SubmitPriceUnsigned { block_number, price }),
        Err(_) => Err(WorkerError::FetchFailed),
    }
}

/// The payload that a local key signs for a fetched price.
pub fn unsigned_payload(
    block_number: BlockNumber,
    fetched: Result<u32, HttpError>,
    account: Option<[u8; 32]>,
) -> (r: Result<PricePayload, WorkerError>)
    ensures
        r == match (fetched, account) {
            (Err(_), _) => Err(WorkerError::FetchFailed),
            (Ok(_), None) => Err(WorkerError::NoLocalAccount),
            (Ok(price), Some(public)) => Ok::<PricePayload, WorkerError>(PricePayload { block_number, price, public }),
        },
{
    match fetched {
        Err(_) => Err(WorkerError::FetchFailed),
        Ok(price) => match account {
            None => Err(WorkerError::NoLocalAccount),
            Some(public) => Ok(PricePayload { block_number, price, public }),
        },
    }
}

/// Read access for other modules.
pub trait SymbolPriceInterface {
    fn get_price_at(&self, symbol: Vec<u8>, unix_ts: Option<u64>) -> Option<SymbolPrice>;

    fn get_price(&self, symbol: Vec<u8>) -> Option<SymbolPrice>;

    fn fetch_live_price(&self, symbol: Vec<u8>, code: u16, body: &[u8]) -> Option<SymbolPrice>;
}

impl SymbolPriceInterface for Pallet {
    fn get_price_at(&self, symbol: Vec<u8>, unix_ts: Option<u64>) -> Option<SymbolPrice> {
        Pallet::get_price_at(self, &symbol, unix_ts)
    }

    fn get_price(&self, symbol: Vec<u8>) -> Option<SymbolPrice> {
        Pallet::get_price(self, &symbol)
    }

    fn fetch_live_price(&self, symbol: Vec<u8>, code: u16, body: &[u8]) -> Option<SymbolPrice> {
        fetch_live_price(&symbol, code, body)
    }
}

/// Every unsigned submission admitted against one state names the same slot,
/// that state's next accepted slot, so the pool keeps only one of them; the
/// one further from the prediction has the higher priority. Once any
/// submission is applied, with an interval of at least one block, every
/// other admitted one is stale against the new slot, whatever the block.
pub proof fn lemma_one_submission_per_slot(
    next_slot: u64,
    current: u64,
    predicted: u32,
    base: u64,
    interval: u64,
    b1: u64,
    p1: u32,
    b2: u64,
    p2: u32,
    later: u64,
    predicted_later: u32,
)
    requires
        admission(next_slot, current, predicted, base, b1, p1) is Ok,
        admission(next_slot, current, predicted, base, b2, p2) is Ok,
        interval >= 1,
        b2 < u64::MAX,
    ensures
        admission(next_slot, current, predicted, base, b1, p1).unwrap().provides == next_slot,
        admission(next_slot, current, predicted, base, b2, p2).unwrap().provides == next_slot,
        change_percent(predicted, p1) >= change_percent(predicted, p2)
            ==> admission(next_slot, current, predicted, base, b1, p1).unwrap().priority
                >= admission(next_slot, current, predicted, base, b2, p2).unwrap().priority,
        admission(slot_after(current, interval), later, predicted_later, base, b2, p2)
            == Err::<ValidTransaction, InvalidTransaction>(InvalidTransaction::Stale),
{
}

/// A submission from before the next accepted slot is always stale; one from
/// a block after the current one, and not before the slot, is always from
/// the future.
pub proof fn lemma_freshness(next_slot: u64, current: u64, predicted: u32, base: u64, b: u64, p: u32)
    ensures
        b < next_slot ==> admission(next_slot, current, predicted, base, b, p)
            == Err::<ValidTransaction, InvalidTransaction>(InvalidTransaction::Stale),
        next_slot <= b && b > current ==> admission(next_slot, current, predicted, base, b, p)
            == Err::<ValidTransaction, InvalidTransaction>(InvalidTransaction::Future),
        next_slot <= b <= current ==> admission(next_slot, current, predicted, base, b, p) is Ok,
{
}

} // verus!
