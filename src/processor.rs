//! The validated mutation engine: one handler per operation. Each checks its
//! preconditions in a fixed order, first failure wins, and writes only after
//! every check has passed, so a failed instruction changes nothing.
//!
//! Two values come from outside the engine and are taken as arguments: the
//! minimum balance that keeps the control account's byte region alive, and
//! whether the token transfer that the operation asked for went through.
use vstd::prelude::*;
use crate::codec::{
    fields_bytes, key_of, lemma_fits_update_num, lemma_parse_fields_of_bytes,
    num_of, parse_fields, FieldValue, KEY_LEN,
};
use crate::error::EngineError;
use crate::instruction::{spec_unpack, FanitradeUtilsInstructions, InstructionModel};
use crate::state::{
    lottery_kinds, market_kinds, trax_kinds, LotteryDetails, MarketDetails, OptionsBetDetails,
    TicketDetails, TraxDetails, WithdrawRequest,
};

verus! {

/// One account supplied with an instruction.
pub struct Account {
    pub key: [u8; 32],
    /// The program that owns the account's bytes.
    pub owner: [u8; 32],
    pub lamports: u64,
    pub is_signer: bool,
    /// The account's byte region; its length is fixed at creation.
    pub data: Vec<u8>,
}

/// A token transfer that an operation needs the transfer service to make.
pub struct TransferRequest {
    pub token_program: [u8; 32],
    pub source: [u8; 32],
    /// Present for a checked transfer, which names the token's mint.
    pub mint: Option<[u8; 32]>,
    pub destination: [u8; 32],
    pub authority: [u8; 32],
    pub amount: u64,
}

/// Decimals of the token that withdrawals move.
pub const TOKEN_DECIMALS: u8 = 9;

/// The associated token account of a wallet for a mint.
pub uninterp spec fn associated_address_of(wallet: Seq<u8>, mint: Seq<u8>) -> Seq<u8>;

/// Relies on spl_associated_token_account::get_associated_token_address: the
/// associated token account address, derived from the wallet and mint keys
/// alone (for the classic token program). The derivation panics only when no
/// bump seed gives an off-curve address, which it treats as unreachable.
#[verifier::external_body]
#[allow(deprecated)]
fn associated_token_address(wallet: &[u8; 32], mint: &[u8; 32]) -> (r: [u8; 32])
    ensures
        r@ == associated_address_of(wallet@, mint@),
{
    spl_associated_token_account::get_associated_token_address(&(*wallet).into(), &(*mint).into())
        .to_bytes()
}

fn keys_equal(a: &[u8; 32], b: &[u8; 32]) -> (r: bool)
    ensures
        r == (a@ == b@),
{
    let mut i: usize = 0;
    while i < KEY_LEN
        invariant
            i <= KEY_LEN,
            forall|j: int| 0 <= j < i ==> a@[j] == b@[j],
        decreases KEY_LEN - i,
    {
        if a[i] != b[i] {
            return false;
        }
        i = i + 1;
    }
    assert(a@ =~= b@);
    true
}

/// `b` is `a` with `record` written over the start of its bytes.
pub open spec fn stored(a: Account, b: Account, record: Seq<u8>) -> bool {
    &&& b.key == a.key
    &&& b.owner == a.owner
    &&& b.lamports == a.lamports
    &&& b.is_signer == a.is_signer
    &&& b.data@ == record + a.data@.subrange(record.len() as int, a.data@.len() as int)
}

/// Only account `i` of `old` changed, and it now holds `record`.
pub open spec fn writes_one(old: Seq<Account>, new: Seq<Account>, i: int, record: Seq<u8>) -> bool {
    &&& new.len() == old.len()
    &&& forall|j: int| 0 <= j < old.len() && j != i ==> new[j] == old[j]
    &&& stored(old[i], new[i], record)
}

/// Only the control and subject accounts changed, and they hold the records.
pub open spec fn writes_two(
    old: Seq<Account>,
    new: Seq<Account>,
    control: Seq<u8>,
    subject: Seq<u8>,
) -> bool {
    &&& new.len() == old.len()
    &&& forall|j: int| 2 <= j < old.len() ==> new[j] == old[j]
    &&& stored(old[0], new[0], control)
    &&& stored(old[1], new[1], subject)
}

fn write_record(accounts: &mut Vec<Account>, i: usize, record: Vec<u8>)
    requires
        i < old(accounts)@.len(),
        record@.len() <= old(accounts)@[i as int].data@.len(),
    ensures
        writes_one(old(accounts)@, final(accounts)@, i as int, record@),
{
    let ghost before = accounts@[i as int].data@;
    let n = accounts[i].data.len();
    let mut data = record;
    let mut j = data.len();
    while j < n
        invariant
            record@.len() <= j <= n,
            n == before.len(),
            before == accounts@[i as int].data@,
            i < accounts@.len(),
            data@ == record@ + before.subrange(record@.len() as int, j as int),
        decreases n - j,
    {
        let x = accounts[i].data[j];
        data.push(x);
        assert(record@ + before.subrange(record@.len() as int, j + 1) =~= (record@
            + before.subrange(record@.len() as int, j as int)).push(x));
        j = j + 1;
    }
    accounts[i].data = data;
}

// ---------------------------------------------------------------------------
// Creation: CreateLottery, InitializeTrax, CreateMarket
// ---------------------------------------------------------------------------

/// The checks of a creation, in order. Accounts: control, then creator.
pub open spec fn create_outcome(
    program_id: Seq<u8>,
    accs: Seq<Account>,
    admin: Seq<u8>,
    min_balance: u64,
    record_len: nat,
) -> Result<(), EngineError> {
    if accs.len() < 2 {
        Err(EngineError::AccountIndexError)
    } else if !accs[1].is_signer {
        Err(EngineError::NotSigner)
    } else if accs[0].owner@ != program_id {
        Err(EngineError::NotProgramOwned)
    } else if accs[0].lamports < min_balance {
        Err(EngineError::InsufficientFunds)
    } else if admin != accs[1].key@ {
        Err(EngineError::UnauthorizedAdmin)
    } else if record_len > accs[0].data@.len() {
        Err(EngineError::AccountDataTooSmall)
    } else {
        Ok(())
    }
}

/// A creation that stores `record` in the control account.
pub open spec fn create_post(
    program_id: Seq<u8>,
    old: Seq<Account>,
    new: Seq<Account>,
    admin: Seq<u8>,
    record: Seq<FieldValue>,
    min_balance: u64,
    r: Result<(), EngineError>,
) -> bool {
    match create_outcome(program_id, old, admin, min_balance, fields_bytes(record).len()) {
        Ok(()) => r is Ok && writes_one(old, new, 0, fields_bytes(record)),
        Err(e) => r == Err::<(), EngineError>(e) && new == old,
    }
}

/// A new lottery: initialized, not ended, empty pot, no entries.
pub open spec fn lottery_created(fs: Seq<FieldValue>) -> Seq<FieldValue> {
    fs.update(2, FieldValue::Num(1)).update(3, FieldValue::Num(0)).update(
        7,
        FieldValue::Num(0),
    ).update(8, FieldValue::Num(0))
}

/// A new market system: initialized, empty pool, no markets.
pub open spec fn trax_created(fs: Seq<FieldValue>) -> Seq<FieldValue> {
    fs.update(1, FieldValue::Num(1)).update(2, FieldValue::Num(0)).update(
        4,
        FieldValue::Num(0),
    ).update(5, FieldValue::Num(0))
}

/// A new market: no options, empty pool.
pub open spec fn market_created(fs: Seq<FieldValue>) -> Seq<FieldValue> {
    fs.update(8, FieldValue::Num(0)).update(9, FieldValue::Num(0))
}

/// The checks of a creation up to the admin match, in order.
fn check_creator(
    program_id: &[u8; 32],
    accounts: &Vec<Account>,
    admin: &[u8; 32],
    min_balance: u64,
) -> (r: Result<(), EngineError>)
    ensures
        match create_outcome(program_id@, accounts@, admin@, min_balance, 0) {
            Ok(()) => r is Ok,
            Err(e) => r == Err::<(), EngineError>(e),
        },
{
    if accounts.len() < 2 {
        return Err(EngineError::AccountIndexError);
    }
    if !accounts[1].is_signer {
        return Err(EngineError::NotSigner);
    }
    if !keys_equal(&accounts[0].owner, program_id) {
        return Err(EngineError::NotProgramOwned);
    }
    if accounts[0].lamports < min_balance {
        return Err(EngineError::InsufficientFunds);
    }
    if !keys_equal(admin, &accounts[1].key) {
        return Err(EngineError::UnauthorizedAdmin);
    }
    Ok(())
}

/// Writes a new lottery into the control account.
pub fn create_lottery(
    program_id: &[u8; 32],
    accounts: &mut Vec<Account>,
    lottery: LotteryDetails,
    min_balance: u64,
) -> (r: Result<(), EngineError>)
    requires
        lottery.wf(),
    ensures
        create_post(
            program_id@,
            old(accounts)@,
            final(accounts)@,
            lottery.admin@,
            lottery_created(lottery@),
            min_balance,
            r,
        ),
{
    if let Err(e) = check_creator(program_id, accounts, &lottery.admin, min_balance) {
        return Err(e);
    }
    let mut input = lottery;
    input.is_initialized = 1;
    input.is_ended = 0;
    input.amount_in_pot = 0;
    input.total_entries = 0;
    proof {
        let ks = lottery_kinds();
        let fs = lottery@;
        lemma_fits_update_num(ks, fs, 2, 1);
        lemma_fits_update_num(ks, fs.update(2, FieldValue::Num(1)), 3, 0);
        lemma_fits_update_num(ks, fs.update(2, FieldValue::Num(1)).update(3, FieldValue::Num(0)), 7, 0);
        lemma_fits_update_num(
            ks,
            fs.update(2, FieldValue::Num(1)).update(3, FieldValue::Num(0)).update(7, FieldValue::Num(0)),
            8,
            0,
        );
        assert(input@ =~= lottery_created(lottery@));
    }
    let bytes = input.encode();
    if bytes.len() > accounts[0].data.len() {
        return Err(EngineError::AccountDataTooSmall);
    }
    write_record(accounts, 0, bytes);
    Ok(())
}

/// Writes a new market system record into the control account.
pub fn initialize_trax(
    program_id: &[u8; 32],
    accounts: &mut Vec<Account>,
    trax: TraxDetails,
    min_balance: u64,
) -> (r: Result<(), EngineError>)
    requires
        trax.wf(),
    ensures
        create_post(
            program_id@,
            old(accounts)@,
            final(accounts)@,
            trax.admin@,
            trax_created(trax@),
            min_balance,
            r,
        ),
{
    if let Err(e) = check_creator(program_id, accounts, &trax.admin, min_balance) {
        return Err(e);
    }
    let mut input = trax;
    input.is_initialized = 1;
    input.trax_pool_amount = 0;
    input.total_markets = 0;
    input.active_markets = 0;
    proof {
        let ks = trax_kinds();
        let fs = trax@;
        lemma_fits_update_num(ks, fs, 1, 1);
        lemma_fits_update_num(ks, fs.update(1, FieldValue::Num(1)), 2, 0);
        lemma_fits_update_num(ks, fs.update(1, FieldValue::Num(1)).update(2, FieldValue::Num(0)), 4, 0);
        lemma_fits_update_num(
            ks,
            fs.update(1, FieldValue::Num(1)).update(2, FieldValue::Num(0)).update(4, FieldValue::Num(0)),
            5,
            0,
        );
        assert(input@ =~= trax_created(trax@));
    }
    let bytes = input.encode();
    if bytes.len() > accounts[0].data.len() {
        return Err(EngineError::AccountDataTooSmall);
    }
    write_record(accounts, 0, bytes);
    Ok(())
}

/// Writes a new market into the control account.
pub fn create_market(
    program_id: &[u8; 32],
    accounts: &mut Vec<Account>,
    market: MarketDetails,
    min_balance: u64,
) -> (r: Result<(), EngineError>)
    requires
        market.wf(),
    ensures
        create_post(
            program_id@,
            old(accounts)@,
            final(accounts)@,
            market.admin@,
            market_created(market@),
            min_balance,
            r,
        ),
{
    if let Err(e) = check_creator(program_id, accounts, &market.admin, min_balance) {
        return Err(e);
    }
    let mut input = market;
    input.options_count = 0;
    input.amount_in_pool = 0;
    proof {
        lemma_fits_update_num(market_kinds(), market@, 8, 0);
        lemma_fits_update_num(market_kinds(), market@.update(8, FieldValue::Num(0)), 9, 0);
        assert(input@ =~= market_created(market@));
    }
    let bytes = input.encode();
    if bytes.len() > accounts[0].data.len() {
        return Err(EngineError::AccountDataTooSmall);
    }
    write_record(accounts, 0, bytes);
    Ok(())
}

// ---------------------------------------------------------------------------
// Entries: PlayFaniLotto, PlaceOption
// ---------------------------------------------------------------------------

/// The lottery after one ticket sale at its own price.
pub open spec fn lottery_after_sale(lot: Seq<FieldValue>) -> Seq<FieldValue> {
    lot.update(7, FieldValue::Num((num_of(lot[7]) + num_of(lot[6])) as u64)).update(
        8,
        FieldValue::Num((num_of(lot[8]) + 1) as u64),
    )
}

/// The market after one bet of `amount`.
pub open spec fn market_after_bet(m: Seq<FieldValue>, amount: u64) -> Seq<FieldValue> {
    m.update(8, FieldValue::Num((num_of(m[8]) + 1) as u64)).update(
        9,
        FieldValue::Num((num_of(m[9]) + amount) as u64),
    )
}

/// The checks shared by entries, in order. Accounts: control, subject,
/// entrant (signer), unused, pool token account, token program, entrant's
/// token account.
pub open spec fn entry_gate(program_id: Seq<u8>, accs: Seq<Account>) -> Result<(), EngineError> {
    if accs.len() < 7 {
        Err(EngineError::AccountIndexError)
    } else if !accs[2].is_signer {
        Err(EngineError::NotSigner)
    } else if accs[0].owner@ != program_id || accs[1].owner@ != program_id {
        Err(EngineError::NotProgramOwned)
    } else {
        Ok(())
    }
}

/// The checks of a ticket purchase, in order, and the lottery it leaves.
pub open spec fn play_outcome(program_id: Seq<u8>, accs: Seq<Account>, ticket: Seq<FieldValue>) -> Result<
    Seq<FieldValue>,
    EngineError,
> {
    match entry_gate(program_id, accs) {
        Err(e) => Err(e),
        Ok(()) => match parse_fields(lottery_kinds(), accs[0].data@) {
            None => Err(EngineError::DecodeError),
            Some((lot, _)) => if num_of(lot[7]) + num_of(lot[6]) > u64::MAX || num_of(lot[8]) + 1
                > u64::MAX {
                Err(EngineError::ArithmeticOverflow)
            } else if fields_bytes(lottery_after_sale(lot)).len() > accs[0].data@.len()
                || fields_bytes(ticket).len() > accs[1].data@.len() {
                Err(EngineError::AccountDataTooSmall)
            } else {
                Ok(lottery_after_sale(lot))
            },
        },
    }
}

/// The checks of a bet, in order, and the market it leaves.
pub open spec fn place_option_outcome(
    program_id: Seq<u8>,
    accs: Seq<Account>,
    bet: Seq<FieldValue>,
) -> Result<Seq<FieldValue>, EngineError> {
    match entry_gate(program_id, accs) {
        Err(e) => Err(e),
        Ok(()) => match parse_fields(market_kinds(), accs[0].data@) {
            None => Err(EngineError::DecodeError),
            Some((m, _)) => if num_of(m[8]) + 1 > u64::MAX || num_of(m[9]) + num_of(bet[8])
                > u64::MAX {
                Err(EngineError::ArithmeticOverflow)
            } else if fields_bytes(market_after_bet(m, num_of(bet[8]))).len()
                > accs[0].data@.len() || fields_bytes(bet).len() > accs[1].data@.len() {
                Err(EngineError::AccountDataTooSmall)
            } else {
                Ok(market_after_bet(m, num_of(bet[8])))
            },
        },
    }
}

/// The transfer of an entry: `amount` from the entrant's token account to
/// the pool's, under the entrant's authority.
pub open spec fn entry_request(accs: Seq<Account>, amount: u64) -> TransferRequest {
    TransferRequest {
        token_program: accs[5].key,
        source: accs[6].key,
        mint: None,
        destination: accs[4].key,
        authority: accs[2].key,
        amount,
    }
}

/// An entry whose checks give `outcome`: on success and a completed
/// transfer, control and subject hold `control` and `subject`; otherwise
/// nothing changes.
pub open spec fn entry_post(
    outcome: Result<Seq<FieldValue>, EngineError>,
    old: Seq<Account>,
    new: Seq<Account>,
    subject: Seq<FieldValue>,
    transfer_ok: bool,
    r: Result<(), EngineError>,
) -> bool {
    match outcome {
        Err(e) => r == Err::<(), EngineError>(e) && new == old,
        Ok(control) => if transfer_ok {
            r is Ok && writes_two(old, new, fields_bytes(control), fields_bytes(subject))
        } else {
            r == Err::<(), EngineError>(EngineError::TransferError) && new == old
        },
    }
}

fn check_entry_gate(program_id: &[u8; 32], accounts: &Vec<Account>) -> (r: Result<(), EngineError>)
    ensures
        r == entry_gate(program_id@, accounts@),
{
    if accounts.len() < 7 {
        return Err(EngineError::AccountIndexError);
    }
    if !accounts[2].is_signer {
        return Err(EngineError::NotSigner);
    }
    if !keys_equal(&accounts[0].owner, program_id) || !keys_equal(&accounts[1].owner, program_id) {
        return Err(EngineError::NotProgramOwned);
    }
    Ok(())
}

/// Runs the checks of a purchase; on success gives the two records to write
/// and the ticket price.
fn check_play(program_id: &[u8; 32], accounts: &Vec<Account>, ticket: &TicketDetails) -> (r:
    Result<(Vec<u8>, Vec<u8>, u64), EngineError>)
    requires
        ticket.wf(),
    ensures
        match play_outcome(program_id@, accounts@, ticket@) {
            Ok(lot) => r is Ok && r->Ok_0.0@ == fields_bytes(lot) && r->Ok_0.1@ == fields_bytes(
                ticket@,
            ) && r->Ok_0.2 == num_of(lot[6]),
            Err(e) => r is Err && r->Err_0 == e,
        },
{
    if let Err(e) = check_entry_gate(program_id, accounts) {
        return Err(e);
    }
    let mut lot = match LotteryDetails::decode(accounts[0].data.as_slice()) {
        Ok((l, _)) => l,
        Err(e) => return Err(e),
    };
    if lot.amount_in_pot > u64::MAX - lot.ticket_price || lot.total_entries == u64::MAX {
        return Err(EngineError::ArithmeticOverflow);
    }
    let ghost before = lot@;
    lot.amount_in_pot = lot.amount_in_pot + lot.ticket_price;
    lot.total_entries = lot.total_entries + 1;
    proof {
        lemma_fits_update_num(lottery_kinds(), before, 7, lot.amount_in_pot);
        lemma_fits_update_num(
            lottery_kinds(),
            before.update(7, FieldValue::Num(lot.amount_in_pot)),
            8,
            lot.total_entries,
        );
        assert(lot@ =~= lottery_after_sale(before));
    }
    let control = lot.encode();
    let subject = ticket.encode();
    if control.len() > accounts[0].data.len() || subject.len() > accounts[1].data.len() {
        return Err(EngineError::AccountDataTooSmall);
    }
    Ok((control, subject, lot.ticket_price))
}

/// Runs the checks of a bet; on success gives the two records to write and
/// the stake.
fn check_place_option(
    program_id: &[u8; 32],
    accounts: &Vec<Account>,
    bet: &OptionsBetDetails,
) -> (r: Result<(Vec<u8>, Vec<u8>, u64), EngineError>)
    requires
        bet.wf(),
    ensures
        match place_option_outcome(program_id@, accounts@, bet@) {
            Ok(m) => r is Ok && r->Ok_0.0@ == fields_bytes(m) && r->Ok_0.1@ == fields_bytes(bet@)
                && r->Ok_0.2 == num_of(bet@[8]),
            Err(e) => r is Err && r->Err_0 == e,
        },
{
    if let Err(e) = check_entry_gate(program_id, accounts) {
        return Err(e);
    }
    let mut market = match MarketDetails::decode(accounts[0].data.as_slice()) {
        Ok((m, _)) => m,
        Err(e) => return Err(e),
    };
    let amount = bet.options_bet_amount;
    if market.options_count == u64::MAX || market.amount_in_pool > u64::MAX - amount {
        return Err(EngineError::ArithmeticOverflow);
    }
    let ghost before = market@;
    market.options_count = market.options_count + 1;
    market.amount_in_pool = market.amount_in_pool + amount;
    proof {
        lemma_fits_update_num(market_kinds(), before, 8, market.options_count);
        lemma_fits_update_num(
            market_kinds(),
            before.update(8, FieldValue::Num(market.options_count)),
            9,
            market.amount_in_pool,
        );
        assert(market@ =~= market_after_bet(before, amount));
    }
    let control = market.encode();
    let subject = bet.encode();
    if control.len() > accounts[0].data.len() || subject.len() > accounts[1].data.len() {
        return Err(EngineError::AccountDataTooSmall);
    }
    Ok((control, subject, amount))
}

/// Records a ticket purchase: the pot grows by the ticket price and the
/// entries by one, and the ticket is stored in the subject account.
/// `transfer_ok` is the outcome of the transfer that `play_transfer` named.
pub fn play(
    program_id: &[u8; 32],
    accounts: &mut Vec<Account>,
    ticket: &TicketDetails,
    transfer_ok: bool,
) -> (r: Result<(), EngineError>)
    requires
        ticket.wf(),
    ensures
        entry_post(
            play_outcome(program_id@, old(accounts)@, ticket@),
            old(accounts)@,
            final(accounts)@,
            ticket@,
            transfer_ok,
            r,
        ),
{
    match check_play(program_id, accounts, ticket) {
        Err(e) => Err(e),
        Ok((control, subject, _)) => {
            if !transfer_ok {
                return Err(EngineError::TransferError);
            }
            write_record(accounts, 0, control);
            write_record(accounts, 1, subject);
            Ok(())
        },
    }
}

/// The transfer a ticket purchase needs: the ticket price, from the player's
/// token account to the pool's.
pub fn play_transfer(program_id: &[u8; 32], accounts: &Vec<Account>, ticket: &TicketDetails) -> (r:
    Result<TransferRequest, EngineError>)
    requires
        ticket.wf(),
    ensures
        match play_outcome(program_id@, accounts@, ticket@) {
            Ok(lot) => r == Ok::<TransferRequest, EngineError>(
                entry_request(accounts@, num_of(lot[6])),
            ),
            Err(e) => r == Err::<TransferRequest, EngineError>(e),
        },
{
    match check_play(program_id, accounts, ticket) {
        Err(e) => Err(e),
        Ok((_, _, price)) => Ok(
            TransferRequest {
                token_program: accounts[5].key,
                source: accounts[6].key,
                mint: None,
                destination: accounts[4].key,
                authority: accounts[2].key,
                amount: price,
            },
        ),
    }
}

/// Records a bet: the market's option count grows by one and its pool by
/// the stake, and the bet is stored in the subject account.
pub fn place_option(
    program_id: &[u8; 32],
    accounts: &mut Vec<Account>,
    bet: &OptionsBetDetails,
    transfer_ok: bool,
) -> (r: Result<(), EngineError>)
    requires
        bet.wf(),
    ensures
        entry_post(
            place_option_outcome(program_id@, old(accounts)@, bet@),
            old(accounts)@,
            final(accounts)@,
            bet@,
            transfer_ok,
            r,
        ),
{
    match check_place_option(program_id, accounts, bet) {
        Err(e) => Err(e),
        Ok((control, subject, _)) => {
            if !transfer_ok {
                return Err(EngineError::TransferError);
            }
            write_record(accounts, 0, control);
            write_record(accounts, 1, subject);
            Ok(())
        },
    }
}

/// The transfer a bet needs: the stake, from the trader's token account to
/// the pool's.
pub fn place_option_transfer(
    program_id: &[u8; 32],
    accounts: &Vec<Account>,
    bet: &OptionsBetDetails,
) -> (r: Result<TransferRequest, EngineError>)
    requires
        bet.wf(),
    ensures
        match place_option_outcome(program_id@, accounts@, bet@) {
            Ok(_) => r == Ok::<TransferRequest, EngineError>(
                entry_request(accounts@, num_of(bet@[8])),
            ),
            Err(e) => r == Err::<TransferRequest, EngineError>(e),
        },
{
    match check_place_option(program_id, accounts, bet) {
        Err(e) => Err(e),
        Ok((_, _, amount)) => Ok(
            TransferRequest {
                token_program: accounts[5].key,
                source: accounts[6].key,
                mint: None,
                destination: accounts[4].key,
                authority: accounts[2].key,
                amount,
            },
        ),
    }
}

// ---------------------------------------------------------------------------
// Withdraw and SettleOption
// ---------------------------------------------------------------------------

/// The checks of a withdrawal, in order. Accounts: control, admin (signer),
/// token mint, token program, control's token account, admin's token account.
/// The control account must keep its minimum balance after paying `amount`.
pub open spec fn withdraw_outcome(
    program_id: Seq<u8>,
    accs: Seq<Account>,
    amount: u64,
    min_balance: u64,
) -> Result<(), EngineError> {
    if accs.len() < 6 {
        Err(EngineError::AccountIndexError)
    } else if !accs[1].is_signer {
        Err(EngineError::NotSigner)
    } else if accs[0].owner@ != program_id {
        Err(EngineError::NotProgramOwned)
    } else {
        match parse_fields(lottery_kinds(), accs[0].data@) {
            None => Err(EngineError::DecodeError),
            Some((lot, _)) => if key_of(lot[0]) != accs[1].key@ {
                Err(EngineError::UnauthorizedAdmin)
            } else if accs[0].lamports < min_balance + amount {
                Err(EngineError::InsufficientFunds)
            } else {
                Ok(())
            },
        }
    }
}

/// A withdrawal never writes an account: the transfer service moves the
/// tokens.
pub open spec fn withdraw_post(
    program_id: Seq<u8>,
    old: Seq<Account>,
    new: Seq<Account>,
    amount: u64,
    min_balance: u64,
    transfer_ok: bool,
    r: Result<(), EngineError>,
) -> bool {
    &&& new == old
    &&& match withdraw_outcome(program_id, old, amount, min_balance) {
        Err(e) => r == Err::<(), EngineError>(e),
        Ok(()) => if transfer_ok {
            r is Ok
        } else {
            r == Err::<(), EngineError>(EngineError::TransferError)
        },
    }
}

/// The transfer of a withdrawal: `amount` of the mint, from the control
/// account's associated token account to the admin's, under the control
/// account's authority.
pub open spec fn is_withdraw_request(accs: Seq<Account>, amount: u64, t: TransferRequest) -> bool {
    &&& t.token_program == accs[3].key
    &&& t.source@ == associated_address_of(accs[0].key@, accs[2].key@)
    &&& t.mint == Some(accs[2].key)
    &&& t.destination@ == associated_address_of(accs[1].key@, accs[2].key@)
    &&& t.authority == accs[0].key
    &&& t.amount == amount
}

fn check_withdraw(
    program_id: &[u8; 32],
    accounts: &Vec<Account>,
    request: &WithdrawRequest,
    min_balance: u64,
) -> (r: Result<(), EngineError>)
    ensures
        r == withdraw_outcome(program_id@, accounts@, request.amount, min_balance),
{
    if accounts.len() < 6 {
        return Err(EngineError::AccountIndexError);
    }
    if !accounts[1].is_signer {
        return Err(EngineError::NotSigner);
    }
    if !keys_equal(&accounts[0].owner, program_id) {
        return Err(EngineError::NotProgramOwned);
    }
    let lot = match LotteryDetails::decode(accounts[0].data.as_slice()) {
        Ok((l, _)) => l,
        Err(e) => return Err(e),
    };
    if !keys_equal(&lot.admin, &accounts[1].key) {
        return Err(EngineError::UnauthorizedAdmin);
    }
    if accounts[0].lamports < min_balance || accounts[0].lamports - min_balance < request.amount {
        return Err(EngineError::InsufficientFunds);
    }
    Ok(())
}

/// Pays `request.amount` out of a lottery to its admin. `transfer_ok` is the
/// outcome of the transfer that `withdraw_transfer` named.
pub fn withdraw(
    program_id: &[u8; 32],
    accounts: &Vec<Account>,
    request: &WithdrawRequest,
    min_balance: u64,
    transfer_ok: bool,
) -> (r: Result<(), EngineError>)
    ensures
        withdraw_post(program_id@, accounts@, accounts@, request.amount, min_balance, transfer_ok, r),
{
    if let Err(e) = check_withdraw(program_id, accounts, request, min_balance) {
        return Err(e);
    }
    if !transfer_ok {
        return Err(EngineError::TransferError);
    }
    Ok(())
}

/// The transfer a withdrawal needs.
pub fn withdraw_transfer(
    program_id: &[u8; 32],
    accounts: &Vec<Account>,
    request: &WithdrawRequest,
    min_balance: u64,
) -> (r: Result<TransferRequest, EngineError>)
    ensures
        match withdraw_outcome(program_id@, accounts@, request.amount, min_balance) {
            Ok(()) => r is Ok && is_withdraw_request(accounts@, request.amount, r->Ok_0),
            Err(e) => r is Err && r->Err_0 == e,
        },
{
    if let Err(e) = check_withdraw(program_id, accounts, request, min_balance) {
        return Err(e);
    }
    let control = accounts[0].key;
    let admin = accounts[1].key;
    let mint = accounts[2].key;
    Ok(
        TransferRequest {
            token_program: accounts[3].key,
            source: associated_token_address(&control, &mint),
            mint: Some(mint),
            destination: associated_token_address(&admin, &mint),
            authority: control,
            amount: request.amount,
        },
    )
}

/// `b` is `a` with its balance set to `lamports`.
pub open spec fn with_lamports(a: Account, b: Account, lamports: int) -> bool {
    &&& b.key == a.key
    &&& b.owner == a.owner
    &&& b.is_signer == a.is_signer
    &&& b.data@ == a.data@
    &&& b.lamports == lamports
}

/// The checks of a settlement. Accounts: control, settler. No signer,
/// ownership or admin check is made.
pub open spec fn settle_outcome(accs: Seq<Account>) -> Result<(), EngineError> {
    if accs.len() < 2 {
        Err(EngineError::AccountIndexError)
    } else if accs[1].lamports + accs[0].lamports > u64::MAX {
        Err(EngineError::ArithmeticOverflow)
    } else {
        Ok(())
    }
}

/// A settlement moves the control account's whole balance to the settler.
pub open spec fn settle_post(old: Seq<Account>, new: Seq<Account>, r: Result<(), EngineError>) -> bool {
    match settle_outcome(old) {
        Err(e) => r == Err::<(), EngineError>(e) && new == old,
        Ok(()) => {
            &&& r is Ok
            &&& new.len() == old.len()
            &&& forall|j: int| 2 <= j < old.len() ==> new[j] == old[j]
            &&& with_lamports(old[0], new[0], 0)
            &&& with_lamports(old[1], new[1], old[1].lamports + old[0].lamports)
        },
    }
}

fn set_lamports(accounts: &mut Vec<Account>, i: usize, lamports: u64)
    requires
        i < old(accounts)@.len(),
    ensures
        final(accounts)@.len() == old(accounts)@.len(),
        forall|j: int| 0 <= j < old(accounts)@.len() && j != i ==> final(accounts)@[j] == old(
            accounts,
        )@[j],
        with_lamports(old(accounts)@[i as int], final(accounts)@[i as int], lamports as int),
{
    accounts[i].lamports = lamports;
}

/// Sweeps the control account's balance to the settler.
pub fn settle_option(accounts: &mut Vec<Account>) -> (r: Result<(), EngineError>)
    ensures
        settle_post(old(accounts)@, final(accounts)@, r),
{
    if accounts.len() < 2 {
        return Err(EngineError::AccountIndexError);
    }
    let swept = accounts[0].lamports;
    if accounts[1].lamports > u64::MAX - swept {
        return Err(EngineError::ArithmeticOverflow);
    }
    let paid = accounts[1].lamports + swept;
    set_lamports(accounts, 1, paid);
    set_lamports(accounts, 0, 0);
    Ok(())
}

// ---------------------------------------------------------------------------
// Dispatch
// ---------------------------------------------------------------------------

/// What one instruction does to the accounts and what it returns.
pub open spec fn process_post(
    program_id: Seq<u8>,
    old: Seq<Account>,
    new: Seq<Account>,
    data: Seq<u8>,
    min_balance: u64,
    transfer_ok: bool,
    r: Result<(), EngineError>,
) -> bool {
    match spec_unpack(data) {
        Err(e) => r == Err::<(), EngineError>(e) && new == old,
        Ok(InstructionModel::CreateLottery(fs)) => create_post(
            program_id,
            old,
            new,
            key_of(fs[0]),
            lottery_created(fs),
            min_balance,
            r,
        ),
        Ok(InstructionModel::PlayFaniLotto(t)) => entry_post(
            play_outcome(program_id, old, t),
            old,
            new,
            t,
            transfer_ok,
            r,
        ),
        Ok(InstructionModel::Withdraw(w)) => withdraw_post(
            program_id,
            old,
            new,
            num_of(w[0]),
            min_balance,
            transfer_ok,
            r,
        ),
        Ok(InstructionModel::InitializeTrax(fs)) => create_post(
            program_id,
            old,
            new,
            key_of(fs[0]),
            trax_created(fs),
            min_balance,
            r,
        ),
        Ok(InstructionModel::CreateMarket(fs)) => create_post(
            program_id,
            old,
            new,
            key_of(fs[0]),
            market_created(fs),
            min_balance,
            r,
        ),
        Ok(InstructionModel::PlaceOption(b)) => entry_post(
            place_option_outcome(program_id, old, b),
            old,
            new,
            b,
            transfer_ok,
            r,
        ),
        Ok(InstructionModel::SettleOption(_)) => settle_post(old, new, r),
    }
}

/// The transfer that an instruction needs before it can be recorded, if any.
pub open spec fn transfer_post(
    program_id: Seq<u8>,
    accs: Seq<Account>,
    data: Seq<u8>,
    min_balance: u64,
    r: Result<Option<TransferRequest>, EngineError>,
) -> bool {
    match spec_unpack(data) {
        Err(e) => r == Err::<Option<TransferRequest>, EngineError>(e),
        Ok(InstructionModel::PlayFaniLotto(t)) => match play_outcome(program_id, accs, t) {
            Ok(lot) => r == Ok::<Option<TransferRequest>, EngineError>(
                Some(entry_request(accs, num_of(lot[6]))),
            ),
            Err(e) => r == Err::<Option<TransferRequest>, EngineError>(e),
        },
        Ok(InstructionModel::PlaceOption(b)) => match place_option_outcome(program_id, accs, b) {
            Ok(_) => r == Ok::<Option<TransferRequest>, EngineError>(
                Some(entry_request(accs, num_of(b[8]))),
            ),
            Err(e) => r == Err::<Option<TransferRequest>, EngineError>(e),
        },
        Ok(InstructionModel::Withdraw(w)) => match withdraw_outcome(
            program_id,
            accs,
            num_of(w[0]),
            min_balance,
        ) {
            Ok(()) => r is Ok && r->Ok_0 is Some && is_withdraw_request(
                accs,
                num_of(w[0]),
                r->Ok_0->Some_0,
            ),
            Err(e) => r == Err::<Option<TransferRequest>, EngineError>(e),
        },
        Ok(_) => r == Ok::<Option<TransferRequest>, EngineError>(None),
    }
}

/// The instruction processor.
pub struct Processor;

impl Processor {
    /// Decodes and carries out one instruction. `min_balance` is the minimum
    /// balance for the control account's size; `transfer_ok` is the outcome
    /// of the transfer that `transfer_for` named, and is not read by
    /// operations that need none.
    pub fn process(
        program_id: &[u8; 32],
        accounts: &mut Vec<Account>,
        instruction_data: &[u8],
        min_balance: u64,
        transfer_ok: bool,
    ) -> (r: Result<(), EngineError>)
        ensures
            process_post(
                program_id@,
                old(accounts)@,
                final(accounts)@,
                instruction_data@,
                min_balance,
                transfer_ok,
                r,
            ),
    {
        let instruction = match FanitradeUtilsInstructions::unpack(instruction_data) {
            Ok(i) => i,
            Err(e) => return Err(e),
        };
        match instruction {
            FanitradeUtilsInstructions::CreateLottery { lottery } => create_lottery(
                program_id,
                accounts,
                lottery,
                min_balance,
            ),
            FanitradeUtilsInstructions::PlayFaniLotto { ticket } => play(
                program_id,
                accounts,
                &ticket,
                transfer_ok,
            ),
            FanitradeUtilsInstructions::Withdraw { request } => withdraw(
                program_id,
                accounts,
                &request,
                min_balance,
                transfer_ok,
            ),
            FanitradeUtilsInstructions::InitializeTrax { trax } => initialize_trax(
                program_id,
                accounts,
                trax,
                min_balance,
            ),
            FanitradeUtilsInstructions::CreateMarket { market } => create_market(
                program_id,
                accounts,
                market,
                min_balance,
            ),
            FanitradeUtilsInstructions::PlaceOption { bet } => place_option(
                program_id,
                accounts,
                &bet,
                transfer_ok,
            ),
            FanitradeUtilsInstructions::SettleOption { result: _ } => settle_option(accounts),
        }
    }

    /// Runs the checks of one instruction without writing anything, and names
    /// the token transfer it needs: `None` for operations that need none.
    pub fn transfer_for(
        program_id: &[u8; 32],
        accounts: &Vec<Account>,
        instruction_data: &[u8],
        min_balance: u64,
    ) -> (r: Result<Option<TransferRequest>, EngineError>)
        ensures
            transfer_post(program_id@, accounts@, instruction_data@, min_balance, r),
    {
        let instruction = match FanitradeUtilsInstructions::unpack(instruction_data) {
            Ok(i) => i,
            Err(e) => return Err(e),
        };
        match instruction {
            FanitradeUtilsInstructions::PlayFaniLotto { ticket } => match play_transfer(
                program_id,
                accounts,
                &ticket,
            ) {
                Ok(t) => Ok(Some(t)),
                Err(e) => Err(e),
            },
            FanitradeUtilsInstructions::PlaceOption { bet } => match place_option_transfer(
                program_id,
                accounts,
                &bet,
            ) {
                Ok(t) => Ok(Some(t)),
                Err(e) => Err(e),
            },
            FanitradeUtilsInstructions::Withdraw { request } => match withdraw_transfer(
                program_id,
                accounts,
                &request,
                min_balance,
            ) {
                Ok(t) => Ok(Some(t)),
                Err(e) => Err(e),
            },
            _ => Ok(None),
        }
    }
}

// ---------------------------------------------------------------------------
// Laws
// ---------------------------------------------------------------------------

/// A creation (lottery, market system or market) whose payload names an
/// admin other than the signing creator fails with `UnauthorizedAdmin` and
/// leaves every account as it was, once the signer, ownership and funding
/// checks that come first have passed.
pub proof fn law_create_needs_matching_admin(
    program_id: Seq<u8>,
    old: Seq<Account>,
    new: Seq<Account>,
    admin: Seq<u8>,
    record: Seq<FieldValue>,
    min_balance: u64,
    r: Result<(), EngineError>,
)
    requires
        old.len() >= 2,
        old[1].is_signer,
        old[0].owner@ == program_id,
        old[0].lamports >= min_balance,
        admin != old[1].key@,
        create_post(program_id, old, new, admin, record, min_balance, r),
    ensures
        r == Err::<(), EngineError>(EngineError::UnauthorizedAdmin),
        new == old,
{
}

/// A ticket purchase or a bet whose transfer failed leaves every account,
/// control and subject included, as it was.
pub proof fn law_failed_transfer_changes_nothing(
    outcome: Result<Seq<FieldValue>, EngineError>,
    old: Seq<Account>,
    new: Seq<Account>,
    subject: Seq<FieldValue>,
    r: Result<(), EngineError>,
)
    requires
        entry_post(outcome, old, new, subject, false, r),
    ensures
        new == old,
        r is Err,
{
}

/// After a successful purchase the control account decodes to the lottery
/// that the purchase computed.
proof fn lemma_sale_is_stored(
    program_id: Seq<u8>,
    old: Seq<Account>,
    new: Seq<Account>,
    ticket: Seq<FieldValue>,
)
    requires
        play_outcome(program_id, old, ticket) is Ok,
        entry_post(play_outcome(program_id, old, ticket), old, new, ticket, true, Ok(())),
    ensures
        parse_fields(lottery_kinds(), new[0].data@) is Some,
        parse_fields(lottery_kinds(), new[0].data@)->Some_0.0 == play_outcome(
            program_id,
            old,
            ticket,
        )->Ok_0,
{
    let lot = parse_fields(lottery_kinds(), old[0].data@)->Some_0.0;
    crate::codec::lemma_parse_fields_fit(lottery_kinds(), old[0].data@);
    let a = (num_of(lot[7]) + num_of(lot[6])) as u64;
    lemma_fits_update_num(lottery_kinds(), lot, 7, a);
    lemma_fits_update_num(
        lottery_kinds(),
        lot.update(7, FieldValue::Num(a)),
        8,
        (num_of(lot[8]) + 1) as u64,
    );
    let sold = lottery_after_sale(lot);
    let tail = old[0].data@.subrange(fields_bytes(sold).len() as int, old[0].data@.len() as int);
    lemma_parse_fields_of_bytes(lottery_kinds(), sold, tail);
}

/// Successive successful purchases against one lottery: after the first
/// `k` of them the ticket price is unchanged, the entries have grown by `k`
/// and the pot by `k` ticket prices.
proof fn lemma_purchases_prefix(
    program_id: Seq<u8>,
    states: Seq<Seq<Account>>,
    tickets: Seq<Seq<FieldValue>>,
    k: int,
)
    requires
        states.len() == tickets.len() + 1,
        0 <= k <= tickets.len(),
        parse_fields(lottery_kinds(), states[0][0].data@) is Some,
        forall|i: int|
            0 <= i < tickets.len() ==> #[trigger] entry_post(
                play_outcome(program_id, states[i], tickets[i]),
                states[i],
                states[i + 1],
                tickets[i],
                true,
                Ok(()),
            ),
    ensures
        parse_fields(lottery_kinds(), states[k][0].data@) is Some,
        ({
            let first = parse_fields(lottery_kinds(), states[0][0].data@)->Some_0.0;
            let now = parse_fields(lottery_kinds(), states[k][0].data@)->Some_0.0;
            &&& num_of(now[6]) == num_of(first[6])
            &&& num_of(now[8]) == num_of(first[8]) + k
            &&& num_of(now[7]) == num_of(first[7]) + k * num_of(first[6])
        }),
    decreases k,
{
    if k > 0 {
        lemma_purchases_prefix(program_id, states, tickets, k - 1);
        let i = k - 1;
        assert(entry_post(
            play_outcome(program_id, states[i], tickets[i]),
            states[i],
            states[i + 1],
            tickets[i],
            true,
            Ok(()),
        ));
        if play_outcome(program_id, states[i], tickets[i]) is Err {
            assert(false);
        }
        lemma_sale_is_stored(program_id, states[i], states[i + 1], tickets[i]);
        let prev = parse_fields(lottery_kinds(), states[i][0].data@)->Some_0.0;
        let now = parse_fields(lottery_kinds(), states[k][0].data@)->Some_0.0;
        assert(now == lottery_after_sale(prev));
        crate::codec::lemma_parse_fields_fit(lottery_kinds(), states[i][0].data@);
        assert(prev.len() == 10);
        assert(num_of(now[6]) == num_of(prev[6]));
        assert(num_of(now[8]) == num_of(prev[8]) + 1);
        assert(num_of(now[7]) == num_of(prev[7]) + num_of(prev[6]));
        let first = parse_fields(lottery_kinds(), states[0][0].data@)->Some_0.0;
        let p = num_of(first[6]);
        assert((k - 1) * p + p == k * p) by (nonlinear_arith);
    }
}

/// Successive successful ticket purchases against one lottery: after `n` of
/// them the entry count has grown by exactly `n` and the pot by the sum of
/// the `n` amounts transferred, each the unchanged ticket price.
pub proof fn law_purchases_accumulate(
    program_id: Seq<u8>,
    states: Seq<Seq<Account>>,
    tickets: Seq<Seq<FieldValue>>,
)
    requires
        states.len() == tickets.len() + 1,
        parse_fields(lottery_kinds(), states[0][0].data@) is Some,
        forall|i: int|
            0 <= i < tickets.len() ==> #[trigger] entry_post(
                play_outcome(program_id, states[i], tickets[i]),
                states[i],
                states[i + 1],
                tickets[i],
                true,
                Ok(()),
            ),
    ensures
        parse_fields(lottery_kinds(), states.last()[0].data@) is Some,
        ({
            let first = parse_fields(lottery_kinds(), states[0][0].data@)->Some_0.0;
            let last = parse_fields(lottery_kinds(), states.last()[0].data@)->Some_0.0;
            &&& num_of(last[8]) == num_of(first[8]) + tickets.len()
            &&& num_of(last[7]) == num_of(first[7]) + tickets.len() * num_of(first[6])
        }),
{
    lemma_purchases_prefix(program_id, states, tickets, tickets.len() as int);
}

} // verus!
