//! Instruction decoding: a tag byte selects the operation, the rest is its
//! payload record and must be used up exactly.
use vstd::prelude::*;
use crate::codec::{
    fields_bytes, fields_fit, lemma_truncated_fails, parse_exact, FieldKind, FieldValue,
};
use crate::error::EngineError;
use crate::state::{
    lottery_kinds, market_kinds, options_bet_kinds, result_kinds, ticket_kinds, trax_kinds,
    withdraw_kinds, LotteryDetails, MarketDetails, OptionsBetDetails, ResultDetails,
    TicketDetails, TraxDetails, WithdrawRequest,
};

verus! {

pub const TAG_CREATE_LOTTERY: u8 = 0;
pub const TAG_PURCHASE_TICKET: u8 = 1;
pub const TAG_WITHDRAW: u8 = 2;
pub const TAG_INITIALIZE_MARKET_SYSTEM: u8 = 5;
pub const TAG_CREATE_MARKET: u8 = 6;
pub const TAG_PLACE_OPTION_BET: u8 = 7;
pub const TAG_SETTLE_OPTION: u8 = 8;

/// The closed set of operations, each with its decoded payload.
pub enum FanitradeUtilsInstructions {
    CreateLottery { lottery: LotteryDetails },
    PlayFaniLotto { ticket: TicketDetails },
    Withdraw { request: WithdrawRequest },
    InitializeTrax { trax: TraxDetails },
    CreateMarket { market: MarketDetails },
    PlaceOption { bet: OptionsBetDetails },
    SettleOption { result: ResultDetails },
}

/// An operation with the fields of its payload.
pub enum InstructionModel {
    CreateLottery(Seq<FieldValue>),
    PlayFaniLotto(Seq<FieldValue>),
    Withdraw(Seq<FieldValue>),
    InitializeTrax(Seq<FieldValue>),
    CreateMarket(Seq<FieldValue>),
    PlaceOption(Seq<FieldValue>),
    SettleOption(Seq<FieldValue>),
}

impl View for FanitradeUtilsInstructions {
    type V = InstructionModel;

    open spec fn view(&self) -> InstructionModel {
        match self {
            FanitradeUtilsInstructions::CreateLottery { lottery } => InstructionModel::CreateLottery(
                lottery@,
            ),
            FanitradeUtilsInstructions::PlayFaniLotto { ticket } => InstructionModel::PlayFaniLotto(
                ticket@,
            ),
            FanitradeUtilsInstructions::Withdraw { request } => InstructionModel::Withdraw(
                request@,
            ),
            FanitradeUtilsInstructions::InitializeTrax { trax } => InstructionModel::InitializeTrax(
                trax@,
            ),
            FanitradeUtilsInstructions::CreateMarket { market } => InstructionModel::CreateMarket(
                market@,
            ),
            FanitradeUtilsInstructions::PlaceOption { bet } => InstructionModel::PlaceOption(bet@),
            FanitradeUtilsInstructions::SettleOption { result } => InstructionModel::SettleOption(
                result@,
            ),
        }
    }
}

/// The payload kinds of the operation with tag `tag`, if there is one.
pub open spec fn payload_kinds(tag: u8) -> Option<Seq<FieldKind>> {
    if tag == TAG_CREATE_LOTTERY {
        Some(lottery_kinds())
    } else if tag == TAG_PURCHASE_TICKET {
        Some(ticket_kinds())
    } else if tag == TAG_WITHDRAW {
        Some(withdraw_kinds())
    } else if tag == TAG_INITIALIZE_MARKET_SYSTEM {
        Some(trax_kinds())
    } else if tag == TAG_CREATE_MARKET {
        Some(market_kinds())
    } else if tag == TAG_PLACE_OPTION_BET {
        Some(options_bet_kinds())
    } else if tag == TAG_SETTLE_OPTION {
        Some(result_kinds())
    } else {
        None
    }
}

pub open spec fn model_of(tag: u8, fs: Seq<FieldValue>) -> InstructionModel {
    if tag == TAG_CREATE_LOTTERY {
        InstructionModel::CreateLottery(fs)
    } else if tag == TAG_PURCHASE_TICKET {
        InstructionModel::PlayFaniLotto(fs)
    } else if tag == TAG_WITHDRAW {
        InstructionModel::Withdraw(fs)
    } else if tag == TAG_INITIALIZE_MARKET_SYSTEM {
        InstructionModel::InitializeTrax(fs)
    } else if tag == TAG_CREATE_MARKET {
        InstructionModel::CreateMarket(fs)
    } else if tag == TAG_PLACE_OPTION_BET {
        InstructionModel::PlaceOption(fs)
    } else {
        InstructionModel::SettleOption(fs)
    }
}

/// What an instruction buffer means: an empty buffer or an unknown tag is
/// `InvalidInstruction`; a payload that is not exactly one record of the
/// operation's kind is `DecodeError`.
pub open spec fn spec_unpack(b: Seq<u8>) -> Result<InstructionModel, EngineError> {
    if b.len() == 0 {
        Err(EngineError::InvalidInstruction)
    } else {
        match payload_kinds(b[0]) {
            None => Err(EngineError::InvalidInstruction),
            Some(ks) => match parse_exact(ks, b.subrange(1, b.len() as int)) {
                Some(fs) => Ok(model_of(b[0], fs)),
                None => Err(EngineError::DecodeError),
            },
        }
    }
}

/// Malformed instructions are refused: an empty buffer, and a tag that
/// names no operation, give `InvalidInstruction` whatever follows the tag.
pub proof fn law_malformed_instruction(tag: u8, rest: Seq<u8>)
    requires
        payload_kinds(tag) is None,
    ensures
        spec_unpack(Seq::empty()) == Err::<InstructionModel, EngineError>(
            EngineError::InvalidInstruction,
        ),
        spec_unpack(seq![tag] + rest) == Err::<InstructionModel, EngineError>(
            EngineError::InvalidInstruction,
        ),
{
    assert((seq![tag] + rest)[0] == tag);
}

/// A payload cut short, by any number of bytes, is refused with
/// `DecodeError` whatever the operation.
pub proof fn law_truncated_payload(tag: u8, fs: Seq<FieldValue>, cut: int)
    requires
        payload_kinds(tag) is Some,
        fields_fit(payload_kinds(tag)->Some_0, fs),
        0 <= cut < fields_bytes(fs).len(),
    ensures
        spec_unpack(seq![tag] + fields_bytes(fs).subrange(0, cut)) == Err::<
            InstructionModel,
            EngineError,
        >(EngineError::DecodeError),
{
    let b = seq![tag] + fields_bytes(fs).subrange(0, cut);
    assert(b[0] == tag);
    assert(b.subrange(1, b.len() as int) =~= fields_bytes(fs).subrange(0, cut));
    lemma_truncated_fails(payload_kinds(tag)->Some_0, fs, cut);
}

impl FanitradeUtilsInstructions {
    /// Payloads are well-formed records.
    pub open spec fn wf(&self) -> bool {
        match self {
            FanitradeUtilsInstructions::CreateLottery { lottery } => lottery.wf(),
            FanitradeUtilsInstructions::PlayFaniLotto { ticket } => ticket.wf(),
            FanitradeUtilsInstructions::Withdraw { request } => request.wf(),
            FanitradeUtilsInstructions::InitializeTrax { trax } => trax.wf(),
            FanitradeUtilsInstructions::CreateMarket { market } => market.wf(),
            FanitradeUtilsInstructions::PlaceOption { bet } => bet.wf(),
            FanitradeUtilsInstructions::SettleOption { result } => result.wf(),
        }
    }

    /// Decodes an instruction buffer into its operation and payload.
    pub fn unpack(input: &[u8]) -> (r: Result<FanitradeUtilsInstructions, EngineError>)
        ensures
            match spec_unpack(input@) {
                Ok(m) => r is Ok && r->Ok_0@ == m && r->Ok_0.wf(),
                Err(e) => r is Err && r->Err_0 == e,
            },
    {
        if input.len() == 0 {
            return Err(EngineError::InvalidInstruction);
        }
        let tag = input[0];
        let rest = vstd::slice::slice_subrange(input, 1, input.len());
        if tag == TAG_CREATE_LOTTERY {
            match LotteryDetails::try_from_slice(rest) {
                Ok(lottery) => Ok(FanitradeUtilsInstructions::CreateLottery { lottery }),
                Err(e) => Err(e),
            }
        } else if tag == TAG_PURCHASE_TICKET {
            match TicketDetails::try_from_slice(rest) {
                Ok(ticket) => Ok(FanitradeUtilsInstructions::PlayFaniLotto { ticket }),
                Err(e) => Err(e),
            }
        } else if tag == TAG_WITHDRAW {
            match WithdrawRequest::try_from_slice(rest) {
                Ok(request) => Ok(FanitradeUtilsInstructions::Withdraw { request }),
                Err(e) => Err(e),
            }
        } else if tag == TAG_INITIALIZE_MARKET_SYSTEM {
            match TraxDetails::try_from_slice(rest) {
                Ok(trax) => Ok(FanitradeUtilsInstructions::InitializeTrax { trax }),
                Err(e) => Err(e),
            }
        } else if tag == TAG_CREATE_MARKET {
            match MarketDetails::try_from_slice(rest) {
                Ok(market) => Ok(FanitradeUtilsInstructions::CreateMarket { market }),
                Err(e) => Err(e),
            }
        } else if tag == TAG_PLACE_OPTION_BET {
            match OptionsBetDetails::try_from_slice(rest) {
                Ok(bet) => Ok(FanitradeUtilsInstructions::PlaceOption { bet }),
                Err(e) => Err(e),
            }
        } else if tag == TAG_SETTLE_OPTION {
            match ResultDetails::try_from_slice(rest) {
                Ok(result) => Ok(FanitradeUtilsInstructions::SettleOption { result }),
                Err(e) => Err(e),
            }
        } else {
            Err(EngineError::InvalidInstruction)
        }
    }
}

} // verus!
