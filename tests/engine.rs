use fanitrade::error::EngineError;
use fanitrade::processor::{
    create_lottery, create_market, initialize_trax, place_option, play, settle_option, withdraw,
    Account, Processor,
};
use fanitrade::state::{
    LotteryDetails, MarketDetails, OptionsBetDetails, ResultDetails, TicketDetails, TraxDetails,
    WithdrawRequest,
};

const PROGRAM: [u8; 32] = [0xAB; 32];
const ADMIN: [u8; 32] = [0xA1; 32];
const OTHER: [u8; 32] = [0xB2; 32];
const PLAYER: [u8; 32] = [0xC3; 32];
const MIN_BALANCE: u64 = 1_000;

fn account(key: [u8; 32], owner: [u8; 32], lamports: u64, is_signer: bool, len: usize) -> Account {
    Account { key, owner, lamports, is_signer, data: vec![0u8; len] }
}

fn lottery(admin: [u8; 32], ticket_price: u64) -> LotteryDetails {
    LotteryDetails {
        admin,
        name: b"Weekly".to_vec(),
        is_initialized: 0,
        is_ended: 7,
        lottery_start: b"mon".to_vec(),
        lottery_end: b"sun".to_vec(),
        ticket_price,
        amount_in_pot: 555,
        total_entries: 9,
        token_mint: [0x11; 32],
    }
}

fn ticket(player: &str) -> TicketDetails {
    let mut arr = [0u8; 128];
    arr[..6].copy_from_slice(&[1, 2, 3, 4, 5, 6]);
    TicketDetails { player: player.as_bytes().to_vec(), ticket_count: 1, ticket_number_arr: arr }
}

fn market(admin: [u8; 32]) -> MarketDetails {
    MarketDetails {
        admin,
        trax_pub: b"trax".to_vec(),
        market_pair: b"BNB/ETH".to_vec(),
        last_price: 100,
        upper_floor_limit: 120,
        lower_floor_limit: 80,
        market_status: 1,
        market_apy: 5,
        options_count: 4,
        amount_in_pool: 40,
    }
}

fn bet(amount: u64) -> OptionsBetDetails {
    OptionsBetDetails {
        player: b"trader".to_vec(),
        options_market: b"BNB/ETH".to_vec(),
        options_bet: 1,
        options_strike: 100,
        options_spread: 2,
        options_bet_start: 10,
        options_bet_end: 20,
        options_duration: 10,
        options_bet_amount: amount,
        options_bet_result: b"undecided".to_vec(),
    }
}

fn instruction(tag: u8, payload: Vec<u8>) -> Vec<u8> {
    let mut d = vec![tag];
    d.extend(payload);
    d
}

fn creation_accounts(signer: [u8; 32]) -> Vec<Account> {
    vec![account([1; 32], PROGRAM, MIN_BALANCE, false, 300), account(signer, [0; 32], 50, true, 0)]
}

fn entry_accounts(control: Vec<u8>) -> Vec<Account> {
    let mut c = account([1; 32], PROGRAM, MIN_BALANCE, false, control.len() + 20);
    c.data[..control.len()].copy_from_slice(&control);
    vec![
        c,
        account([2; 32], PROGRAM, 10, false, 300),
        account(PLAYER, [0; 32], 10, true, 0),
        account([3; 32], [0; 32], 0, false, 0),
        account([4; 32], [0; 32], 0, false, 0),
        account([5; 32], [0; 32], 0, false, 0),
        account([6; 32], [0; 32], 0, false, 0),
    ]
}

fn stored_lottery(a: &Account) -> LotteryDetails {
    LotteryDetails::decode(&a.data).unwrap().0
}

fn created_lottery_accounts(price: u64) -> Vec<Account> {
    let mut accounts = creation_accounts(ADMIN);
    let data = instruction(0, lottery(ADMIN, price).encode());
    Processor::process(&PROGRAM, &mut accounts, &data, MIN_BALANCE, true).unwrap();
    let control = accounts[0].data.clone();
    let mut e = entry_accounts(Vec::new());
    e[0].data = control;
    e
}

#[test]
fn create_lottery_resets_counters() {
    let mut accounts = creation_accounts(ADMIN);
    let r = create_lottery(&PROGRAM, &mut accounts, lottery(ADMIN, 100), MIN_BALANCE);
    assert_eq!(r, Ok(()));
    let l = stored_lottery(&accounts[0]);
    assert_eq!((l.amount_in_pot, l.total_entries, l.is_initialized, l.is_ended), (0, 0, 1, 0));
    assert_eq!(l.ticket_price, 100);
    assert_eq!(l.admin, ADMIN);
    assert_eq!(accounts[0].data.len(), 300);
    assert!(accounts[0].data[lottery(ADMIN, 100).encode().len()..].iter().all(|b| *b == 0));
}

#[test]
fn create_then_buy() {
    let mut accounts = created_lottery_accounts(100);
    let l = stored_lottery(&accounts[0]);
    assert_eq!((l.amount_in_pot, l.total_entries), (0, 0));
    let data = instruction(1, ticket("P").encode());
    let t = Processor::transfer_for(&PROGRAM, &accounts, &data, MIN_BALANCE).unwrap().unwrap();
    assert_eq!(t.amount, 100);
    assert_eq!(t.source, [6; 32]);
    assert_eq!(t.destination, [4; 32]);
    assert_eq!(t.authority, PLAYER);
    assert_eq!(t.token_program, [5; 32]);
    assert_eq!(t.mint, None);
    Processor::process(&PROGRAM, &mut accounts, &data, MIN_BALANCE, true).unwrap();
    let l = stored_lottery(&accounts[0]);
    assert_eq!((l.amount_in_pot, l.total_entries), (100, 1));
    let stored = TicketDetails::decode(&accounts[1].data).unwrap().0;
    assert_eq!(stored.player, b"P".to_vec());
    assert_eq!(&stored.ticket_number_arr[..6], &[1, 2, 3, 4, 5, 6]);
}

#[test]
fn purchases_accumulate() {
    let mut accounts = created_lottery_accounts(250);
    for n in 1..=4u64 {
        play(&PROGRAM, &mut accounts, &ticket("P"), true).unwrap();
        let l = stored_lottery(&accounts[0]);
        assert_eq!(l.total_entries, n);
        assert_eq!(l.amount_in_pot, 250 * n);
        assert_eq!(l.ticket_price, 250);
    }
}

#[test]
fn failed_transfer_changes_no_record() {
    let mut accounts = created_lottery_accounts(100);
    let before: Vec<Vec<u8>> = accounts.iter().map(|a| a.data.clone()).collect();
    let r = play(&PROGRAM, &mut accounts, &ticket("P"), false);
    assert_eq!(r, Err(EngineError::TransferError));
    let after: Vec<Vec<u8>> = accounts.iter().map(|a| a.data.clone()).collect();
    assert_eq!(before, after);

    let mut accounts = entry_accounts(market(ADMIN).encode());
    let before: Vec<Vec<u8>> = accounts.iter().map(|a| a.data.clone()).collect();
    let data = instruction(7, bet(30).encode());
    assert_eq!(
        Processor::process(&PROGRAM, &mut accounts, &data, MIN_BALANCE, false),
        Err(EngineError::TransferError)
    );
    let after: Vec<Vec<u8>> = accounts.iter().map(|a| a.data.clone()).collect();
    assert_eq!(before, after);
}

#[test]
fn create_with_other_admin_is_unauthorized() {
    let mut accounts = creation_accounts(OTHER);
    let before = accounts[0].data.clone();
    let data = instruction(0, lottery(ADMIN, 100).encode());
    assert_eq!(
        Processor::process(&PROGRAM, &mut accounts, &data, MIN_BALANCE, true),
        Err(EngineError::UnauthorizedAdmin)
    );
    assert_eq!(accounts[0].data, before);
    let data = instruction(6, market(ADMIN).encode());
    assert_eq!(
        Processor::process(&PROGRAM, &mut accounts, &data, MIN_BALANCE, true),
        Err(EngineError::UnauthorizedAdmin)
    );
    assert_eq!(accounts[0].data, before);
}

#[test]
fn creation_checks_in_order() {
    let mut accounts = creation_accounts(ADMIN);
    accounts.pop();
    assert_eq!(
        create_lottery(&PROGRAM, &mut accounts, lottery(ADMIN, 1), MIN_BALANCE),
        Err(EngineError::AccountIndexError)
    );
    let mut accounts = creation_accounts(ADMIN);
    accounts[1].is_signer = false;
    accounts[0].owner = [0; 32];
    assert_eq!(
        create_lottery(&PROGRAM, &mut accounts, lottery(OTHER, 1), MIN_BALANCE),
        Err(EngineError::NotSigner)
    );
    accounts[1].is_signer = true;
    assert_eq!(
        create_lottery(&PROGRAM, &mut accounts, lottery(OTHER, 1), MIN_BALANCE),
        Err(EngineError::NotProgramOwned)
    );
    accounts[0].owner = PROGRAM;
    accounts[0].lamports = MIN_BALANCE - 1;
    assert_eq!(
        create_lottery(&PROGRAM, &mut accounts, lottery(OTHER, 1), MIN_BALANCE),
        Err(EngineError::InsufficientFunds)
    );
    accounts[0].lamports = MIN_BALANCE;
    assert_eq!(
        create_lottery(&PROGRAM, &mut accounts, lottery(OTHER, 1), MIN_BALANCE),
        Err(EngineError::UnauthorizedAdmin)
    );
    accounts[0].data = vec![0u8; 10];
    assert_eq!(
        create_lottery(&PROGRAM, &mut accounts, lottery(ADMIN, 1), MIN_BALANCE),
        Err(EngineError::AccountDataTooSmall)
    );
    assert_eq!(accounts[0].data, vec![0u8; 10]);
}

#[test]
fn initialize_trax_zeroes_pool_and_markets() {
    let mut accounts = creation_accounts(ADMIN);
    let t = TraxDetails {
        admin: ADMIN,
        is_initialized: 0,
        trax_pool_amount: 9,
        total_entries: 8,
        total_markets: 7,
        active_markets: 6,
    };
    initialize_trax(&PROGRAM, &mut accounts, t, MIN_BALANCE).unwrap();
    let s = TraxDetails::decode(&accounts[0].data).unwrap().0;
    assert_eq!(
        (s.is_initialized, s.trax_pool_amount, s.total_entries, s.total_markets, s.active_markets),
        (1, 0, 8, 0, 0)
    );
}

#[test]
fn create_market_then_bet() {
    let mut accounts = creation_accounts(ADMIN);
    create_market(&PROGRAM, &mut accounts, market(ADMIN), MIN_BALANCE).unwrap();
    let m = MarketDetails::decode(&accounts[0].data).unwrap().0;
    assert_eq!((m.options_count, m.amount_in_pool, m.last_price), (0, 0, 100));
    let mut accounts = entry_accounts(accounts[0].data.clone());
    let data = instruction(7, bet(30).encode());
    let t = Processor::transfer_for(&PROGRAM, &accounts, &data, MIN_BALANCE).unwrap().unwrap();
    assert_eq!(t.amount, 30);
    place_option(&PROGRAM, &mut accounts, &bet(30), true).unwrap();
    place_option(&PROGRAM, &mut accounts, &bet(12), true).unwrap();
    let m = MarketDetails::decode(&accounts[0].data).unwrap().0;
    assert_eq!((m.options_count, m.amount_in_pool), (2, 42));
    let b = OptionsBetDetails::decode(&accounts[1].data).unwrap().0;
    assert_eq!(b.options_bet_amount, 12);
}

#[test]
fn entry_checks() {
    let mut accounts = created_lottery_accounts(100);
    accounts.truncate(6);
    assert_eq!(play(&PROGRAM, &mut accounts, &ticket("P"), true), Err(EngineError::AccountIndexError));
    let mut accounts = created_lottery_accounts(100);
    accounts[2].is_signer = false;
    assert_eq!(play(&PROGRAM, &mut accounts, &ticket("P"), true), Err(EngineError::NotSigner));
    accounts[2].is_signer = true;
    accounts[1].owner = OTHER;
    assert_eq!(play(&PROGRAM, &mut accounts, &ticket("P"), true), Err(EngineError::NotProgramOwned));
    let mut accounts = entry_accounts(vec![1, 2, 3]);
    assert_eq!(play(&PROGRAM, &mut accounts, &ticket("P"), true), Err(EngineError::DecodeError));
    let mut accounts = created_lottery_accounts(100);
    accounts[1].data = vec![0u8; 5];
    assert_eq!(play(&PROGRAM, &mut accounts, &ticket("P"), true), Err(EngineError::AccountDataTooSmall));
}

#[test]
fn pot_overflow_is_refused() {
    let mut l = lottery(ADMIN, 10);
    l.amount_in_pot = u64::MAX - 5;
    let mut accounts = entry_accounts(l.encode());
    let before = accounts[0].data.clone();
    assert_eq!(play(&PROGRAM, &mut accounts, &ticket("P"), true), Err(EngineError::ArithmeticOverflow));
    assert_eq!(accounts[0].data, before);
}

fn withdraw_accounts(signer: [u8; 32], lamports: u64) -> Vec<Account> {
    let mut c = account([1; 32], PROGRAM, lamports, false, 300);
    let enc = lottery(ADMIN, 100).encode();
    c.data[..enc.len()].copy_from_slice(&enc);
    vec![
        c,
        account(signer, [0; 32], 77, true, 0),
        account([0x11; 32], [0; 32], 0, false, 0),
        account([0x22; 32], [0; 32], 0, false, 0),
        account([0x33; 32], [0; 32], 0, false, 0),
        account([0x44; 32], [0; 32], 0, false, 0),
    ]
}

#[test]
fn unauthorized_withdraw() {
    let accounts = withdraw_accounts(OTHER, 5_000);
    let data = instruction(2, WithdrawRequest { amount: 10 }.encode());
    let mut after = withdraw_accounts(OTHER, 5_000);
    assert_eq!(
        Processor::process(&PROGRAM, &mut after, &data, MIN_BALANCE, true),
        Err(EngineError::UnauthorizedAdmin)
    );
    assert_eq!(
        Processor::transfer_for(&PROGRAM, &accounts, &data, MIN_BALANCE).map(|t| t.is_some()),
        Err(EngineError::UnauthorizedAdmin)
    );
    for (a, b) in accounts.iter().zip(after.iter()) {
        assert_eq!(a.lamports, b.lamports);
        assert_eq!(a.data, b.data);
    }
}

#[test]
fn withdraw_keeps_minimum_balance() {
    let accounts = withdraw_accounts(ADMIN, MIN_BALANCE + 50);
    let req = WithdrawRequest { amount: 50 };
    assert_eq!(withdraw(&PROGRAM, &accounts, &req, MIN_BALANCE, true), Ok(()));
    let req = WithdrawRequest { amount: 51 };
    assert_eq!(withdraw(&PROGRAM, &accounts, &req, MIN_BALANCE, true), Err(EngineError::InsufficientFunds));
    let poor = withdraw_accounts(ADMIN, MIN_BALANCE - 1);
    let req = WithdrawRequest { amount: 0 };
    assert_eq!(withdraw(&PROGRAM, &poor, &req, MIN_BALANCE, true), Err(EngineError::InsufficientFunds));
    let req = WithdrawRequest { amount: 50 };
    assert_eq!(withdraw(&PROGRAM, &accounts, &req, MIN_BALANCE, false), Err(EngineError::TransferError));
}

#[test]
fn withdraw_transfer_uses_associated_accounts() {
    let accounts = withdraw_accounts(ADMIN, 5_000);
    let data = instruction(2, WithdrawRequest { amount: 10 }.encode());
    let t = Processor::transfer_for(&PROGRAM, &accounts, &data, MIN_BALANCE).unwrap().unwrap();
    #[allow(deprecated)]
    let expected_source = spl_associated_token_account::get_associated_token_address(
        &[1u8; 32].into(),
        &[0x11u8; 32].into(),
    )
    .to_bytes();
    #[allow(deprecated)]
    let expected_destination = spl_associated_token_account::get_associated_token_address(
        &ADMIN.into(),
        &[0x11u8; 32].into(),
    )
    .to_bytes();
    assert_ne!(t.source, [1u8; 32]);
    assert_ne!(t.source, t.destination);
    assert_eq!(t.source, expected_source);
    assert_eq!(t.destination, expected_destination);
    assert_eq!(t.mint, Some([0x11; 32]));
    assert_eq!(t.authority, [1; 32]);
    assert_eq!(t.token_program, [0x22; 32]);
    assert_eq!(t.amount, 10);
}

#[test]
fn settle_drains_balance() {
    let mut accounts = vec![account([1; 32], PROGRAM, 4_321, false, 16), account(OTHER, [0; 32], 100, false, 0)];
    let r = ResultDetails { player: PLAYER, options_market: [1; 32], final_price: b"99".to_vec(), result_status: b"won".to_vec() };
    let data = instruction(8, r.encode());
    assert_eq!(Processor::transfer_for(&PROGRAM, &accounts, &data, MIN_BALANCE).map(|t| t.is_none()), Ok(true));
    Processor::process(&PROGRAM, &mut accounts, &data, MIN_BALANCE, false).unwrap();
    assert_eq!(accounts[0].lamports, 0);
    assert_eq!(accounts[1].lamports, 4_421);
    assert_eq!(accounts[0].data, vec![0u8; 16]);
}

#[test]
fn settle_errors() {
    let mut one = vec![account([1; 32], PROGRAM, 5, false, 0)];
    assert_eq!(settle_option(&mut one), Err(EngineError::AccountIndexError));
    let mut accounts = vec![account([1; 32], PROGRAM, 5, false, 0), account(OTHER, [0; 32], u64::MAX - 4, false, 0)];
    assert_eq!(settle_option(&mut accounts), Err(EngineError::ArithmeticOverflow));
    assert_eq!((accounts[0].lamports, accounts[1].lamports), (5, u64::MAX - 4));
}

#[test]
fn malformed_instruction_touches_nothing() {
    let mut accounts = creation_accounts(ADMIN);
    assert_eq!(Processor::process(&PROGRAM, &mut accounts, &[], MIN_BALANCE, true), Err(EngineError::InvalidInstruction));
    assert_eq!(Processor::process(&PROGRAM, &mut accounts, &[99], MIN_BALANCE, true), Err(EngineError::InvalidInstruction));
    assert_eq!(Processor::process(&PROGRAM, &mut accounts, &[0, 1, 2], MIN_BALANCE, true), Err(EngineError::DecodeError));
    assert_eq!(accounts[0].data, vec![0u8; 300]);
}
