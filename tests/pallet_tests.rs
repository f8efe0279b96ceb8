use symbol_price::coordinator::{LocalLock, TransactionType};
use symbol_price::history::Smoothing;
use symbol_price::pallet::{
    fetch_live_price, is_supported_symbol, plan_round, raw_unsigned_call, unsigned_payload, Call,
    Config, DispatchError, Error, Event, InvalidTransaction, Origin, Pallet, PricePayload,
    SymbolPriceInterface, WorkerError, WorkerPlan, UNSIGNED_LONGEVITY,
};
use symbol_price::extractor::HttpError;

fn config(max_prices: u32, smoothing: Smoothing) -> Config {
    Config {
        grace_period: 5,
        unsigned_interval: 128,
        unsigned_priority: 1 << 20,
        max_prices,
        smoothing,
    }
}

fn pallet_at(block: u64) -> Pallet {
    let mut p = Pallet::new(config(3, Smoothing::from_period(2)));
    assert!(p.set_block_number(block));
    p
}

#[test]
fn signed_prices_fill_history_and_predict() {
    let mut p = pallet_at(1);
    for price in [100u32, 105, 110, 90] {
        assert_eq!(p.submit_price(Origin::Signed(9), price), Ok(()));
    }
    assert_eq!(p.prices(), vec![105, 110, 90]);
    assert_eq!(p.next_predicted_price(), (96, 1));
    assert_eq!(p.calc_ema(), Some(96));
    assert_eq!(p.events().len(), 4);
    assert_eq!(p.events()[3], Event::NewPrice { price: 90, maybe_who: Some(9) });
    assert_eq!(p.next_unsigned_at(), 0);
}

#[test]
fn truncated_weight_predicts_the_oldest_price() {
    let mut p = Pallet::new(config(3, Smoothing::truncated()));
    for price in [100u32, 105, 110, 90] {
        assert_eq!(p.submit_price(Origin::Signed(1), price), Ok(()));
    }
    assert_eq!(p.next_predicted_price().0, 105);
}

#[test]
fn one_price_gives_no_prediction() {
    let mut p = pallet_at(4);
    assert_eq!(p.submit_price(Origin::Signed(1), 100), Ok(()));
    assert_eq!(p.next_predicted_price(), (0, 0));
    assert_eq!(p.submit_price(Origin::Unsigned, 100), Err(DispatchError::BadOrigin));
    assert_eq!(p.prices(), vec![100]);
}

#[test]
fn stale_and_future_submissions_are_rejected() {
    let mut p = pallet_at(10);
    assert_eq!(p.submit_price_unsigned(Origin::Unsigned, 10, 500), Ok(()));
    assert_eq!(p.next_unsigned_at(), 138);
    assert_eq!(
        p.validate_transaction_parameters(137, 500),
        Err(InvalidTransaction::Stale)
    );
    assert!(p.set_block_number(140));
    assert_eq!(
        p.validate_transaction_parameters(141, 500),
        Err(InvalidTransaction::Future)
    );
    assert!(p.validate_transaction_parameters(139, 500).is_ok());
}

#[test]
fn priority_grows_with_divergence() {
    let mut p = pallet_at(3);
    assert_eq!(p.submit_price(Origin::Signed(1), 1000), Ok(()));
    assert_eq!(p.submit_price(Origin::Signed(1), 1000), Ok(()));
    assert_eq!(p.next_predicted_price(), (1000, 3));
    assert_eq!(p.calc_price_change_percent(1250), 25);
    assert_eq!(p.calc_price_change_percent(700), 30);
    let v = p.validate_transaction_parameters(3, 1250).unwrap();
    assert_eq!(v.priority, (1 << 20) + 25_000);
    assert_eq!(v.provides, 0);
    assert_eq!(v.longevity, UNSIGNED_LONGEVITY);
    assert!(v.propagate);
    let w = p.validate_transaction_parameters(2, 1000).unwrap();
    assert_eq!(w.priority, 1 << 20);
    assert_eq!(w.provides, v.provides);
}

#[test]
fn priority_saturates() {
    let mut p = Pallet::new(Config {
        grace_period: 5,
        unsigned_interval: 1,
        unsigned_priority: u64::MAX - 10,
        max_prices: 2,
        smoothing: Smoothing::from_period(2),
    });
    assert_eq!(p.submit_price(Origin::Signed(1), 1), Ok(()));
    assert_eq!(p.submit_price(Origin::Signed(1), 1), Ok(()));
    assert_eq!(p.calc_price_change_percent(u32::MAX), 429496729400);
    assert_eq!(p.validate_transaction_parameters(0, u32::MAX).unwrap().priority, u64::MAX);
}

#[test]
fn one_unsigned_submission_per_slot() {
    let mut p = pallet_at(20);
    let a = p.validate_transaction_parameters(20, 100).unwrap();
    let b = p.validate_transaction_parameters(19, 300).unwrap();
    assert_eq!(a.provides, b.provides);
    assert_eq!(p.submit_price_unsigned(Origin::Unsigned, 20, 100), Ok(()));
    assert_eq!(
        p.submit_price_unsigned(Origin::Unsigned, 19, 300),
        Err(DispatchError::Invalid(InvalidTransaction::Stale))
    );
    assert_eq!(p.prices(), vec![100]);
    assert_eq!(
        p.submit_price_unsigned(Origin::Signed(3), 20, 100),
        Err(DispatchError::BadOrigin)
    );
}

#[test]
fn signed_payload_needs_a_valid_signature() {
    let mut p = pallet_at(8);
    let payload = PricePayload { block_number: 8, price: 321, public: [7u8; 32] };
    assert_eq!(payload.public(), [7u8; 32]);
    assert_eq!(
        p.submit_price_unsigned_with_signed_payload(Origin::Unsigned, payload, [0u8; 64], false),
        Err(DispatchError::Invalid(InvalidTransaction::BadProof))
    );
    assert_eq!(
        p.submit_price_unsigned_with_signed_payload(Origin::Unsigned, payload, [0u8; 64], true),
        Ok(())
    );
    assert_eq!(p.prices(), vec![321]);
    assert_eq!(p.next_unsigned_at(), 136);
    assert_eq!(p.events(), vec![Event::NewPrice { price: 321, maybe_who: None }]);
}

#[test]
fn validate_unsigned_admits_only_unsigned_price_calls() {
    let p = pallet_at(8);
    assert_eq!(
        p.validate_unsigned(&Call::SubmitPrice { price: 5 }, true),
        Err(InvalidTransaction::Call)
    );
    assert!(p
        .validate_unsigned(&Call::SubmitPriceUnsigned { block_number: 8, price: 5 }, false)
        .is_ok());
    let payload = PricePayload { block_number: 9, price: 5, public: [1u8; 32] };
    let call = Call::SubmitPriceUnsignedWithSignedPayload { price_payload: payload, signature: [2u8; 64] };
    assert_eq!(p.validate_unsigned(&call, false), Err(InvalidTransaction::BadProof));
    assert_eq!(p.validate_unsigned(&call, true), Err(InvalidTransaction::Future));
}

#[test]
fn something_is_stored_and_incremented() {
    let mut p = pallet_at(1);
    assert_eq!(p.cause_error(Origin::Signed(2)), Err(DispatchError::Module(Error::NoneValue)));
    assert_eq!(p.do_something(Origin::Unsigned, 3), Err(DispatchError::BadOrigin));
    assert_eq!(p.do_something(Origin::Signed(2), 41), Ok(()));
    assert_eq!(p.events(), vec![Event::SomethingStored(41, 2)]);
    assert_eq!(p.cause_error(Origin::Signed(2)), Ok(()));
    assert_eq!(p.something(), Some(42));
    assert_eq!(p.do_something(Origin::Signed(2), u32::MAX), Ok(()));
    assert_eq!(
        p.cause_error(Origin::Signed(2)),
        Err(DispatchError::Module(Error::StorageOverflow))
    );
    assert_eq!(p.cause_error(Origin::Unsigned), Err(DispatchError::BadOrigin));
}

#[test]
fn blocks_never_go_back() {
    let mut p = pallet_at(10);
    assert!(!p.set_block_number(9));
    assert_eq!(p.block_number(), 10);
    assert!(p.set_block_number(10));
}

#[test]
fn get_price_serves_only_the_supported_symbol() {
    let mut p = pallet_at(5);
    let sym = b"BTC_USDT".to_vec();
    assert!(is_supported_symbol(&sym));
    assert_eq!(p.get_price(&sym), None);
    assert_eq!(p.submit_price(Origin::Signed(1), 100), Ok(()));
    assert_eq!(p.get_price(&sym), Some(100));
    assert_eq!(p.submit_price(Origin::Signed(1), 130), Ok(()));
    // Predicted at this very block: the prediction is served.
    assert_eq!(p.get_price(&sym), Some(120));
    assert!(p.set_block_number(6));
    assert_eq!(p.get_price(&sym), Some(130));
    assert_eq!(p.get_price(&b"ETH_USDT".to_vec()), None);
    assert_eq!(SymbolPriceInterface::get_price(&p, sym.clone()), Some(130));
    assert_eq!(p.get_price_at(&sym, Some(1_600_000_000)), None);
    assert_eq!(SymbolPriceInterface::get_price_at(&p, sym, None), None);
}

#[test]
fn live_price_bypasses_history() {
    let sym = b"BTC_USDT".to_vec();
    assert_eq!(fetch_live_price(&sym, 200, b"{\"USD\": 23456.78}"), Some(2345678));
    assert_eq!(fetch_live_price(&sym, 500, b"{\"USD\": 23456.78}"), None);
    let p = pallet_at(1);
    assert_eq!(SymbolPriceInterface::fetch_live_price(&p, sym, 200, b"{\"USD\": 1}"), Some(100));
    assert_eq!(p.prices(), Vec::<u32>::new());
}

#[test]
fn worker_round_decisions() {
    let mut p = pallet_at(100);
    let mut lock = LocalLock::new();
    assert_eq!(p.choose_transaction_type(&mut lock, 100), TransactionType::Raw);
    assert_eq!(p.choose_transaction_type(&mut lock, 104), TransactionType::Nothing);
    assert_eq!(p.choose_transaction_type(&mut lock, 105), TransactionType::Raw);
    assert_eq!(plan_round(TransactionType::Raw), Ok(WorkerPlan::SendRawUnsigned));
    assert_eq!(plan_round(TransactionType::Nothing), Ok(WorkerPlan::Idle));
    assert_eq!(plan_round(TransactionType::Signed), Err(WorkerError::InvalidTxType));
    assert_eq!(p.check_unsigned_window(100), Ok(()));
    assert_eq!(p.submit_price_unsigned(Origin::Unsigned, 100, 7), Ok(()));
    assert_eq!(p.check_unsigned_window(227), Err(WorkerError::TooEarly));
    assert_eq!(p.check_unsigned_window(228), Ok(()));
    assert_eq!(
        raw_unsigned_call(5, Ok(77)),
        Ok(Call::SubmitPriceUnsigned { block_number: 5, price: 77 })
    );
    assert_eq!(raw_unsigned_call(5, Err(HttpError::DeadlineReached)), Err(WorkerError::FetchFailed));
    assert_eq!(unsigned_payload(5, Ok(77), None), Err(WorkerError::NoLocalAccount));
    assert_eq!(
        unsigned_payload(5, Ok(77), Some([3u8; 32])),
        Ok(PricePayload { block_number: 5, price: 77, public: [3u8; 32] })
    );
    assert_eq!(unsigned_payload(5, Err(HttpError::IoError), Some([3u8; 32])), Err(WorkerError::FetchFailed));
}
