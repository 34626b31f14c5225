use fanitrade::error::EngineError;
use fanitrade::instruction::FanitradeUtilsInstructions;
use fanitrade::state::{
    LotteryDetails, MarketDetails, OptionsBetDetails, ResultDetails, TicketDetails, TraxDetails,
    WithdrawRequest,
};

fn lottery() -> LotteryDetails {
    LotteryDetails {
        admin: [7u8; 32],
        name: b"Weekly draw".to_vec(),
        is_initialized: 1,
        is_ended: 0,
        lottery_start: b"2024-01-01".to_vec(),
        lottery_end: b"2024-01-08".to_vec(),
        ticket_price: 100,
        amount_in_pot: 12345,
        total_entries: 3,
        token_mint: [9u8; 32],
    }
}

#[test]
fn lottery_round_trip() {
    let r = lottery();
    let bytes = r.encode();
    let d = LotteryDetails::try_from_slice(&bytes).unwrap();
    assert_eq!(d.admin, r.admin);
    assert_eq!(d.name, r.name);
    assert_eq!(d.is_initialized, 1);
    assert_eq!(d.is_ended, 0);
    assert_eq!(d.lottery_start, r.lottery_start);
    assert_eq!(d.lottery_end, r.lottery_end);
    assert_eq!(d.ticket_price, 100);
    assert_eq!(d.amount_in_pot, 12345);
    assert_eq!(d.total_entries, 3);
    assert_eq!(d.token_mint, r.token_mint);
}

#[test]
fn lottery_layout_matches_borsh() {
    let r = lottery();
    let expected = borsh::to_vec(&(
        r.admin,
        String::from("Weekly draw"),
        1u64,
        0u64,
        String::from("2024-01-01"),
        String::from("2024-01-08"),
        100u64,
        12345u64,
        3u64,
        r.token_mint,
    ))
    .unwrap();
    assert_eq!(r.encode(), expected);
}

#[test]
fn lottery_layout_exact_bytes() {
    let r = LotteryDetails {
        admin: [1u8; 32],
        name: b"ab".to_vec(),
        is_initialized: 0,
        is_ended: 0,
        lottery_start: Vec::new(),
        lottery_end: Vec::new(),
        ticket_price: 0x0102,
        amount_in_pot: 0,
        total_entries: 0,
        token_mint: [2u8; 32],
    };
    let b = r.encode();
    assert_eq!(b.len(), 32 + 4 + 2 + 8 + 8 + 4 + 4 + 8 + 8 + 8 + 32);
    assert_eq!(&b[32..38], &[2, 0, 0, 0, b'a', b'b']);
    assert_eq!(&b[62..70], &[0x02, 0x01, 0, 0, 0, 0, 0, 0]);
}

#[test]
fn ticket_round_trip_full_array() {
    let mut arr = [0u8; 128];
    for (i, x) in arr.iter_mut().enumerate() {
        *x = i as u8;
    }
    arr[127] = 255;
    let t = TicketDetails { player: "José".as_bytes().to_vec(), ticket_count: u64::MAX, ticket_number_arr: arr };
    let b = t.encode();
    assert_eq!(b.len(), 4 + 5 + 8 + 128);
    let d = TicketDetails::try_from_slice(&b).unwrap();
    assert_eq!(d.player, t.player);
    assert_eq!(d.ticket_count, u64::MAX);
    assert_eq!(d.ticket_number_arr, arr);
    let expected = borsh::to_vec(&(String::from("José"), u64::MAX, arr)).unwrap();
    assert_eq!(b, expected);
}

#[test]
fn long_text_round_trip() {
    let name = vec![b'x'; 70_000];
    let t = TicketDetails { player: name.clone(), ticket_count: 0, ticket_number_arr: [0u8; 128] };
    let d = TicketDetails::try_from_slice(&t.encode()).unwrap();
    assert_eq!(d.player, name);
}

#[test]
fn withdraw_request_round_trip() {
    let w = WithdrawRequest { amount: 0xdead_beef };
    let b = w.encode();
    assert_eq!(b, 0xdead_beefu64.to_le_bytes().to_vec());
    assert_eq!(WithdrawRequest::try_from_slice(&b).unwrap().amount, 0xdead_beef);
}

#[test]
fn trax_round_trip() {
    let t = TraxDetails {
        admin: [3u8; 32],
        is_initialized: 1,
        trax_pool_amount: 2,
        total_entries: 3,
        total_markets: 4,
        active_markets: 5,
    };
    let d = TraxDetails::try_from_slice(&t.encode()).unwrap();
    assert_eq!(
        (d.admin, d.is_initialized, d.trax_pool_amount, d.total_entries, d.total_markets, d.active_markets),
        ([3u8; 32], 1, 2, 3, 4, 5)
    );
}

#[test]
fn market_round_trip() {
    let m = MarketDetails {
        admin: [4u8; 32],
        trax_pub: b"trax".to_vec(),
        market_pair: b"BNB/ETH".to_vec(),
        last_price: 10,
        upper_floor_limit: 20,
        lower_floor_limit: 5,
        market_status: 1,
        market_apy: 7,
        options_count: 2,
        amount_in_pool: 300,
    };
    let d = MarketDetails::try_from_slice(&m.encode()).unwrap();
    assert_eq!(d.admin, m.admin);
    assert_eq!(d.trax_pub, m.trax_pub);
    assert_eq!(d.market_pair, m.market_pair);
    assert_eq!(
        (d.last_price, d.upper_floor_limit, d.lower_floor_limit, d.market_status, d.market_apy, d.options_count, d.amount_in_pool),
        (10, 20, 5, 1, 7, 2, 300)
    );
}

#[test]
fn options_bet_round_trip() {
    let b = OptionsBetDetails {
        player: b"alice".to_vec(),
        options_market: b"BNB/ETH".to_vec(),
        options_bet: 1,
        options_strike: 2,
        options_spread: 3,
        options_bet_start: 4,
        options_bet_end: 5,
        options_duration: 6,
        options_bet_amount: 7,
        options_bet_result: b"undecided".to_vec(),
    };
    let d = OptionsBetDetails::try_from_slice(&b.encode()).unwrap();
    assert_eq!(d.player, b.player);
    assert_eq!(d.options_market, b.options_market);
    assert_eq!(d.options_bet_result, b.options_bet_result);
    assert_eq!(
        (d.options_bet, d.options_strike, d.options_spread, d.options_bet_start, d.options_bet_end, d.options_duration, d.options_bet_amount),
        (1, 2, 3, 4, 5, 6, 7)
    );
}

#[test]
fn result_round_trip() {
    let r = ResultDetails {
        player: [5u8; 32],
        options_market: [6u8; 32],
        final_price: b"1234".to_vec(),
        result_status: b"won".to_vec(),
    };
    let d = ResultDetails::try_from_slice(&r.encode()).unwrap();
    assert_eq!(d.player, r.player);
    assert_eq!(d.options_market, r.options_market);
    assert_eq!(d.final_price, r.final_price);
    assert_eq!(d.result_status, r.result_status);
}

#[test]
fn decode_leaves_trailing_bytes() {
    let mut b = lottery().encode();
    let n = b.len();
    b.extend_from_slice(&[0xAA; 40]);
    let (d, used) = LotteryDetails::decode(&b).unwrap();
    assert_eq!(used, n);
    assert_eq!(d.total_entries, 3);
    assert!(matches!(LotteryDetails::try_from_slice(&b), Err(EngineError::DecodeError)));
}

#[test]
fn truncated_record_is_decode_error() {
    let b = lottery().encode();
    for cut in [0, 1, 31, 32, 35, 40, b.len() - 1] {
        assert!(matches!(LotteryDetails::decode(&b[..cut]), Err(EngineError::DecodeError)));
    }
}

#[test]
fn length_prefix_past_end_is_decode_error() {
    let mut b = vec![0u8; 32];
    b.extend_from_slice(&100u32.to_le_bytes());
    b.extend_from_slice(b"short");
    assert!(matches!(LotteryDetails::decode(&b), Err(EngineError::DecodeError)));
}

#[test]
fn invalid_utf8_text_is_decode_error() {
    let mut b = Vec::new();
    b.extend_from_slice(&2u32.to_le_bytes());
    b.extend_from_slice(&[0xC3, 0x28]);
    b.extend_from_slice(&1u64.to_le_bytes());
    b.extend_from_slice(&[0u8; 128]);
    assert!(matches!(TicketDetails::try_from_slice(&b), Err(EngineError::DecodeError)));
    b[4] = b'o';
    b[5] = b'k';
    assert_eq!(TicketDetails::try_from_slice(&b).unwrap().player, b"ok".to_vec());
}

#[test]
fn empty_instruction_is_invalid() {
    assert!(matches!(FanitradeUtilsInstructions::unpack(&[]), Err(EngineError::InvalidInstruction)));
}

#[test]
fn unknown_tag_is_invalid() {
    assert!(matches!(FanitradeUtilsInstructions::unpack(&[99]), Err(EngineError::InvalidInstruction)));
    assert!(matches!(FanitradeUtilsInstructions::unpack(&[3, 1, 2, 3]), Err(EngineError::InvalidInstruction)));
    let mut data = vec![99u8];
    data.extend_from_slice(&WithdrawRequest { amount: 5 }.encode());
    assert!(matches!(FanitradeUtilsInstructions::unpack(&data), Err(EngineError::InvalidInstruction)));
}

#[test]
fn truncated_payload_is_decode_error() {
    assert!(matches!(FanitradeUtilsInstructions::unpack(&[2, 1, 2, 3]), Err(EngineError::DecodeError)));
    let mut data = vec![0u8];
    data.extend_from_slice(&lottery().encode());
    data.pop();
    assert!(matches!(FanitradeUtilsInstructions::unpack(&data), Err(EngineError::DecodeError)));
}

#[test]
fn payload_with_extra_bytes_is_decode_error() {
    let mut data = vec![2u8];
    data.extend_from_slice(&WithdrawRequest { amount: 5 }.encode());
    data.push(0);
    assert!(matches!(FanitradeUtilsInstructions::unpack(&data), Err(EngineError::DecodeError)));
}

#[test]
fn each_tag_selects_its_operation() {
    let mut data = vec![2u8];
    data.extend_from_slice(&WithdrawRequest { amount: 5 }.encode());
    match FanitradeUtilsInstructions::unpack(&data) {
        Ok(FanitradeUtilsInstructions::Withdraw { request }) => assert_eq!(request.amount, 5),
        _ => panic!("expected a withdrawal"),
    }
    let mut data = vec![0u8];
    data.extend_from_slice(&lottery().encode());
    match FanitradeUtilsInstructions::unpack(&data) {
        Ok(FanitradeUtilsInstructions::CreateLottery { lottery }) => assert_eq!(lottery.ticket_price, 100),
        _ => panic!("expected a lottery"),
    }
    let r = ResultDetails { player: [0; 32], options_market: [1; 32], final_price: Vec::new(), result_status: b"lost".to_vec() };
    let mut data = vec![8u8];
    data.extend_from_slice(&r.encode());
    assert!(matches!(FanitradeUtilsInstructions::unpack(&data), Ok(FanitradeUtilsInstructions::SettleOption { .. })));
    let t = TraxDetails { admin: [0; 32], is_initialized: 0, trax_pool_amount: 0, total_entries: 0, total_markets: 0, active_markets: 0 };
    let mut data = vec![5u8];
    data.extend_from_slice(&t.encode());
    assert!(matches!(FanitradeUtilsInstructions::unpack(&data), Ok(FanitradeUtilsInstructions::InitializeTrax { .. })));
}
