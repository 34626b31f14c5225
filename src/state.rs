//! The records that accounts hold and that instructions carry.
use vstd::prelude::*;
use crate::codec::{
    decodes_as, decodes_exactly_as, field_fits, fields_bytes, fields_fit, lemma_parse_fields_fit, put_bytes128, put_key, put_num,
    put_text, Cursor, FieldKind, FieldValue,
};
use crate::error::EngineError;

verus! {
/// The aggregate state of one lottery, held by its control account.
pub struct LotteryDetails {
    /// The creator; set once at creation.
    pub admin: [u8; 32],
    pub name: Vec<u8>,
    /// 1 once created.
    pub is_initialized: u64,
    /// 0 while the lottery accepts entries.
    pub is_ended: u64,
    pub lottery_start: Vec<u8>,
    pub lottery_end: Vec<u8>,
    /// Price of one ticket, in token units.
    pub ticket_price: u64,
    pub amount_in_pot: u64,
    pub total_entries: u64,
    pub token_mint: [u8; 32],
}

/// Field kinds of [`LotteryDetails`], in encoding order.
pub open spec fn lottery_kinds() -> Seq<FieldKind> {
    seq![
        FieldKind::Key,
        FieldKind::Text,
        FieldKind::Num,
        FieldKind::Num,
        FieldKind::Text,
        FieldKind::Text,
        FieldKind::Num,
        FieldKind::Num,
        FieldKind::Num,
        FieldKind::Key,
    ]
}

impl View for LotteryDetails {
    type V = Seq<FieldValue>;

    open spec fn view(&self) -> Seq<FieldValue> {
        seq![
            FieldValue::Key(self.admin@),
            FieldValue::Text(self.name@),
            FieldValue::Num(self.is_initialized),
            FieldValue::Num(self.is_ended),
            FieldValue::Text(self.lottery_start@),
            FieldValue::Text(self.lottery_end@),
            FieldValue::Num(self.ticket_price),
            FieldValue::Num(self.amount_in_pot),
            FieldValue::Num(self.total_entries),
            FieldValue::Key(self.token_mint@),
        ]
    }
}

impl LotteryDetails {
    /// Every text is UTF-8 and short enough for its length prefix.
    pub open spec fn wf(&self) -> bool {
        fields_fit(lottery_kinds(), self@)
    }

    /// The record's bytes: its fields in declaration order.
    pub fn encode(&self) -> (r: Vec<u8>)
        requires
            self.wf(),
        ensures
            r@ == fields_bytes(self@),
    {
        let mut out: Vec<u8> = Vec::new();
        let ghost mut fs: Seq<FieldValue> = Seq::empty();
        put_key(&mut out, &self.admin, Ghost(fs));
        proof {
            fs = fs.push(FieldValue::Key(self.admin@));
        }
        assert(field_fits(lottery_kinds()[1], self@[1]));
        put_text(&mut out, &self.name, Ghost(fs));
        proof {
            fs = fs.push(FieldValue::Text(self.name@));
        }
        put_num(&mut out, self.is_initialized, Ghost(fs));
        proof {
            fs = fs.push(FieldValue::Num(self.is_initialized));
        }
        put_num(&mut out, self.is_ended, Ghost(fs));
        proof {
            fs = fs.push(FieldValue::Num(self.is_ended));
        }
        assert(field_fits(lottery_kinds()[4], self@[4]));
        put_text(&mut out, &self.lottery_start, Ghost(fs));
        proof {
            fs = fs.push(FieldValue::Text(self.lottery_start@));
        }
        assert(field_fits(lottery_kinds()[5], self@[5]));
        put_text(&mut out, &self.lottery_end, Ghost(fs));
        proof {
            fs = fs.push(FieldValue::Text(self.lottery_end@));
        }
        put_num(&mut out, self.ticket_price, Ghost(fs));
        proof {
            fs = fs.push(FieldValue::Num(self.ticket_price));
        }
        put_num(&mut out, self.amount_in_pot, Ghost(fs));
        proof {
            fs = fs.push(FieldValue::Num(self.amount_in_pot));
        }
        put_num(&mut out, self.total_entries, Ghost(fs));
        proof {
            fs = fs.push(FieldValue::Num(self.total_entries));
        }
        put_key(&mut out, &self.token_mint, Ghost(fs));
        proof {
            fs = fs.push(FieldValue::Key(self.token_mint@));
        }
        assert(fs =~= self@);
        out
    }

    /// Decodes a record from the start of `b`; bytes after it are left alone.
    pub fn decode(b: &[u8]) -> (r: Result<(LotteryDetails, usize), EngineError>)
        ensures
            decodes_as(lottery_kinds(), b@, r),
            r is Ok ==> r->Ok_0.0.wf(),
    {
        let mut c = Cursor::new(Ghost(lottery_kinds()), b);
        let admin = match c.read_key(b) {
            Some(v) => v,
            None => return Err(EngineError::DecodeError),
        };
        let name = match c.read_text(b) {
            Some(v) => v,
            None => return Err(EngineError::DecodeError),
        };
        let is_initialized = match c.read_num(b) {
            Some(v) => v,
            None => return Err(EngineError::DecodeError),
        };
        let is_ended = match c.read_num(b) {
            Some(v) => v,
            None => return Err(EngineError::DecodeError),
        };
        let lottery_start = match c.read_text(b) {
            Some(v) => v,
            None => return Err(EngineError::DecodeError),
        };
        let lottery_end = match c.read_text(b) {
            Some(v) => v,
            None => return Err(EngineError::DecodeError),
        };
        let ticket_price = match c.read_num(b) {
            Some(v) => v,
            None => return Err(EngineError::DecodeError),
        };
        let amount_in_pot = match c.read_num(b) {
            Some(v) => v,
            None => return Err(EngineError::DecodeError),
        };
        let total_entries = match c.read_num(b) {
            Some(v) => v,
            None => return Err(EngineError::DecodeError),
        };
        let token_mint = match c.read_key(b) {
            Some(v) => v,
            None => return Err(EngineError::DecodeError),
        };
        proof {
            c.done(b@);
            lemma_parse_fields_fit(c.kinds@, b@);
        }
        let r = LotteryDetails {
            admin,
            name,
            is_initialized,
            is_ended,
            lottery_start,
            lottery_end,
            ticket_price,
            amount_in_pot,
            total_entries,
            token_mint,
        };
        assert(r@ =~= c.fields@);
        Ok((r, c.pos))
    }

    /// Decodes a record that takes up all of `b`.
    pub fn try_from_slice(b: &[u8]) -> (r: Result<LotteryDetails, EngineError>)
        ensures
            decodes_exactly_as(lottery_kinds(), b@, r),
            r is Ok ==> r->Ok_0.wf(),
    {
        match LotteryDetails::decode(b) {
            Ok((r, n)) => if n == b.len() {
                Ok(r)
            } else {
                Err(EngineError::DecodeError)
            },
            Err(e) => Err(e),
        }
    }
}

/// One purchased ticket, held by the player's own account.
pub struct TicketDetails {
    pub player: Vec<u8>,
    pub ticket_count: u64,
    /// Draw numbers or raw ticket payload.
    pub ticket_number_arr: [u8; 128],
}

/// Field kinds of [`TicketDetails`], in encoding order.
pub open spec fn ticket_kinds() -> Seq<FieldKind> {
    seq![
        FieldKind::Text,
        FieldKind::Num,
        FieldKind::Bytes(128),
    ]
}

impl View for TicketDetails {
    type V = Seq<FieldValue>;

    open spec fn view(&self) -> Seq<FieldValue> {
        seq![
            FieldValue::Text(self.player@),
            FieldValue::Num(self.ticket_count),
            FieldValue::Bytes(self.ticket_number_arr@),
        ]
    }
}

impl TicketDetails {
    /// Every text is UTF-8 and short enough for its length prefix.
    pub open spec fn wf(&self) -> bool {
        fields_fit(ticket_kinds(), self@)
    }

    /// The record's bytes: its fields in declaration order.
    pub fn encode(&self) -> (r: Vec<u8>)
        requires
            self.wf(),
        ensures
            r@ == fields_bytes(self@),
    {
        let mut out: Vec<u8> = Vec::new();
        let ghost mut fs: Seq<FieldValue> = Seq::empty();
        assert(field_fits(ticket_kinds()[0], self@[0]));
        put_text(&mut out, &self.player, Ghost(fs));
        proof {
            fs = fs.push(FieldValue::Text(self.player@));
        }
        put_num(&mut out, self.ticket_count, Ghost(fs));
        proof {
            fs = fs.push(FieldValue::Num(self.ticket_count));
        }
        put_bytes128(&mut out, &self.ticket_number_arr, Ghost(fs));
        proof {
            fs = fs.push(FieldValue::Bytes(self.ticket_number_arr@));
        }
        assert(fs =~= self@);
        out
    }

    /// Decodes a record from the start of `b`; bytes after it are left alone.
    pub fn decode(b: &[u8]) -> (r: Result<(TicketDetails, usize), EngineError>)
        ensures
            decodes_as(ticket_kinds(), b@, r),
            r is Ok ==> r->Ok_0.0.wf(),
    {
        let mut c = Cursor::new(Ghost(ticket_kinds()), b);
        let player = match c.read_text(b) {
            Some(v) => v,
            None => return Err(EngineError::DecodeError),
        };
        let ticket_count = match c.read_num(b) {
            Some(v) => v,
            None => return Err(EngineError::DecodeError),
        };
        let ticket_number_arr = match c.read_bytes128(b) {
            Some(v) => v,
            None => return Err(EngineError::DecodeError),
        };
        proof {
            c.done(b@);
            lemma_parse_fields_fit(c.kinds@, b@);
        }
        let r = TicketDetails { player, ticket_count, ticket_number_arr };
        assert(r@ =~= c.fields@);
        Ok((r, c.pos))
    }

    /// Decodes a record that takes up all of `b`.
    pub fn try_from_slice(b: &[u8]) -> (r: Result<TicketDetails, EngineError>)
        ensures
            decodes_exactly_as(ticket_kinds(), b@, r),
            r is Ok ==> r->Ok_0.wf(),
    {
        match TicketDetails::decode(b) {
            Ok((r, n)) => if n == b.len() {
                Ok(r)
            } else {
                Err(EngineError::DecodeError)
            },
            Err(e) => Err(e),
        }
    }
}

/// Payload of a withdrawal; never stored.
pub struct WithdrawRequest {
    pub amount: u64,
}

/// Field kinds of [`WithdrawRequest`], in encoding order.
pub open spec fn withdraw_kinds() -> Seq<FieldKind> {
    seq![
        FieldKind::Num,
    ]
}

impl View for WithdrawRequest {
    type V = Seq<FieldValue>;

    open spec fn view(&self) -> Seq<FieldValue> {
        seq![
            FieldValue::Num(self.amount),
        ]
    }
}

impl WithdrawRequest {
    /// Every text is UTF-8 and short enough for its length prefix.
    pub open spec fn wf(&self) -> bool {
        fields_fit(withdraw_kinds(), self@)
    }

    /// The record's bytes: its fields in declaration order.
    pub fn encode(&self) -> (r: Vec<u8>)
        requires
            self.wf(),
        ensures
            r@ == fields_bytes(self@),
    {
        let mut out: Vec<u8> = Vec::new();
        let ghost mut fs: Seq<FieldValue> = Seq::empty();
        put_num(&mut out, self.amount, Ghost(fs));
        proof {
            fs = fs.push(FieldValue::Num(self.amount));
        }
        assert(fs =~= self@);
        out
    }

    /// Decodes a record from the start of `b`; bytes after it are left alone.
    pub fn decode(b: &[u8]) -> (r: Result<(WithdrawRequest, usize), EngineError>)
        ensures
            decodes_as(withdraw_kinds(), b@, r),
            r is Ok ==> r->Ok_0.0.wf(),
    {
        let mut c = Cursor::new(Ghost(withdraw_kinds()), b);
        let amount = match c.read_num(b) {
            Some(v) => v,
            None => return Err(EngineError::DecodeError),
        };
        proof {
            c.done(b@);
            lemma_parse_fields_fit(c.kinds@, b@);
        }
        let r = WithdrawRequest { amount };
        assert(r@ =~= c.fields@);
        Ok((r, c.pos))
    }

    /// Decodes a record that takes up all of `b`.
    pub fn try_from_slice(b: &[u8]) -> (r: Result<WithdrawRequest, EngineError>)
        ensures
            decodes_exactly_as(withdraw_kinds(), b@, r),
            r is Ok ==> r->Ok_0.wf(),
    {
        match WithdrawRequest::decode(b) {
            Ok((r, n)) => if n == b.len() {
                Ok(r)
            } else {
                Err(EngineError::DecodeError)
            },
            Err(e) => Err(e),
        }
    }
}

/// The aggregate state of the options market system.
pub struct TraxDetails {
    pub admin: [u8; 32],
    pub is_initialized: u64,
    pub trax_pool_amount: u64,
    pub total_entries: u64,
    pub total_markets: u64,
    pub active_markets: u64,
}

/// Field kinds of [`TraxDetails`], in encoding order.
pub open spec fn trax_kinds() -> Seq<FieldKind> {
    seq![
        FieldKind::Key,
        FieldKind::Num,
        FieldKind::Num,
        FieldKind::Num,
        FieldKind::Num,
        FieldKind::Num,
    ]
}

impl View for TraxDetails {
    type V = Seq<FieldValue>;

    open spec fn view(&self) -> Seq<FieldValue> {
        seq![
            FieldValue::Key(self.admin@),
            FieldValue::Num(self.is_initialized),
            FieldValue::Num(self.trax_pool_amount),
            FieldValue::Num(self.total_entries),
            FieldValue::Num(self.total_markets),
            FieldValue::Num(self.active_markets),
        ]
    }
}

impl TraxDetails {
    /// Every text is UTF-8 and short enough for its length prefix.
    pub open spec fn wf(&self) -> bool {
        fields_fit(trax_kinds(), self@)
    }

    /// The record's bytes: its fields in declaration order.
    pub fn encode(&self) -> (r: Vec<u8>)
        requires
            self.wf(),
        ensures
            r@ == fields_bytes(self@),
    {
        let mut out: Vec<u8> = Vec::new();
        let ghost mut fs: Seq<FieldValue> = Seq::empty();
        put_key(&mut out, &self.admin, Ghost(fs));
        proof {
            fs = fs.push(FieldValue::Key(self.admin@));
        }
        put_num(&mut out, self.is_initialized, Ghost(fs));
        proof {
            fs = fs.push(FieldValue::Num(self.is_initialized));
        }
        put_num(&mut out, self.trax_pool_amount, Ghost(fs));
        proof {
            fs = fs.push(FieldValue::Num(self.trax_pool_amount));
        }
        put_num(&mut out, self.total_entries, Ghost(fs));
        proof {
            fs = fs.push(FieldValue::Num(self.total_entries));
        }
        put_num(&mut out, self.total_markets, Ghost(fs));
        proof {
            fs = fs.push(FieldValue::Num(self.total_markets));
        }
        put_num(&mut out, self.active_markets, Ghost(fs));
        proof {
            fs = fs.push(FieldValue::Num(self.active_markets));
        }
        assert(fs =~= self@);
        out
    }

    /// Decodes a record from the start of `b`; bytes after it are left alone.
    pub fn decode(b: &[u8]) -> (r: Result<(TraxDetails, usize), EngineError>)
        ensures
            decodes_as(trax_kinds(), b@, r),
            r is Ok ==> r->Ok_0.0.wf(),
    {
        let mut c = Cursor::new(Ghost(trax_kinds()), b);
        let admin = match c.read_key(b) {
            Some(v) => v,
            None => return Err(EngineError::DecodeError),
        };
        let is_initialized = match c.read_num(b) {
            Some(v) => v,
            None => return Err(EngineError::DecodeError),
        };
        let trax_pool_amount = match c.read_num(b) {
            Some(v) => v,
            None => return Err(EngineError::DecodeError),
        };
        let total_entries = match c.read_num(b) {
            Some(v) => v,
            None => return Err(EngineError::DecodeError),
        };
        let total_markets = match c.read_num(b) {
            Some(v) => v,
            None => return Err(EngineError::DecodeError),
        };
        let active_markets = match c.read_num(b) {
            Some(v) => v,
            None => return Err(EngineError::DecodeError),
        };
        proof {
            c.done(b@);
            lemma_parse_fields_fit(c.kinds@, b@);
        }
        let r = TraxDetails {
            admin,
            is_initialized,
            trax_pool_amount,
            total_entries,
            total_markets,
            active_markets,
        };
        assert(r@ =~= c.fields@);
        Ok((r, c.pos))
    }

    /// Decodes a record that takes up all of `b`.
    pub fn try_from_slice(b: &[u8]) -> (r: Result<TraxDetails, EngineError>)
        ensures
            decodes_exactly_as(trax_kinds(), b@, r),
            r is Ok ==> r->Ok_0.wf(),
    {
        match TraxDetails::decode(b) {
            Ok((r, n)) => if n == b.len() {
                Ok(r)
            } else {
                Err(EngineError::DecodeError)
            },
            Err(e) => Err(e),
        }
    }
}

/// The aggregate state of one options market, held by its control account.
pub struct MarketDetails {
    /// The creator; set once at creation.
    pub admin: [u8; 32],
    pub trax_pub: Vec<u8>,
    pub market_pair: Vec<u8>,
    pub last_price: u64,
    pub upper_floor_limit: u64,
    pub lower_floor_limit: u64,
    pub market_status: u64,
    pub market_apy: u64,
    pub options_count: u64,
    pub amount_in_pool: u64,
}

/// Field kinds of [`MarketDetails`], in encoding order.
pub open spec fn market_kinds() -> Seq<FieldKind> {
    seq![
        FieldKind::Key,
        FieldKind::Text,
        FieldKind::Text,
        FieldKind::Num,
        FieldKind::Num,
        FieldKind::Num,
        FieldKind::Num,
        FieldKind::Num,
        FieldKind::Num,
        FieldKind::Num,
    ]
}

impl View for MarketDetails {
    type V = Seq<FieldValue>;

    open spec fn view(&self) -> Seq<FieldValue> {
        seq![
            FieldValue::Key(self.admin@),
            FieldValue::Text(self.trax_pub@),
            FieldValue::Text(self.market_pair@),
            FieldValue::Num(self.last_price),
            FieldValue::Num(self.upper_floor_limit),
            FieldValue::Num(self.lower_floor_limit),
            FieldValue::Num(self.market_status),
            FieldValue::Num(self.market_apy),
            FieldValue::Num(self.options_count),
            FieldValue::Num(self.amount_in_pool),
        ]
    }
}

impl MarketDetails {
    /// Every text is UTF-8 and short enough for its length prefix.
    pub open spec fn wf(&self) -> bool {
        fields_fit(market_kinds(), self@)
    }

    /// The record's bytes: its fields in declaration order.
    pub fn encode(&self) -> (r: Vec<u8>)
        requires
            self.wf(),
        ensures
            r@ == fields_bytes(self@),
    {
        let mut out: Vec<u8> = Vec::new();
        let ghost mut fs: Seq<FieldValue> = Seq::empty();
        put_key(&mut out, &self.admin, Ghost(fs));
        proof {
            fs = fs.push(FieldValue::Key(self.admin@));
        }
        assert(field_fits(market_kinds()[1], self@[1]));
        put_text(&mut out, &self.trax_pub, Ghost(fs));
        proof {
            fs = fs.push(FieldValue::Text(self.trax_pub@));
        }
        assert(field_fits(market_kinds()[2], self@[2]));
        put_text(&mut out, &self.market_pair, Ghost(fs));
        proof {
            fs = fs.push(FieldValue::Text(self.market_pair@));
        }
        put_num(&mut out, self.last_price, Ghost(fs));
        proof {
            fs = fs.push(FieldValue::Num(self.last_price));
        }
        put_num(&mut out, self.upper_floor_limit, Ghost(fs));
        proof {
            fs = fs.push(FieldValue::Num(self.upper_floor_limit));
        }
        put_num(&mut out, self.lower_floor_limit, Ghost(fs));
        proof {
            fs = fs.push(FieldValue::Num(self.lower_floor_limit));
        }
        put_num(&mut out, self.market_status, Ghost(fs));
        proof {
            fs = fs.push(FieldValue::Num(self.market_status));
        }
        put_num(&mut out, self.market_apy, Ghost(fs));
        proof {
            fs = fs.push(FieldValue::Num(self.market_apy));
        }
        put_num(&mut out, self.options_count, Ghost(fs));
        proof {
            fs = fs.push(FieldValue::Num(self.options_count));
        }
        put_num(&mut out, self.amount_in_pool, Ghost(fs));
        proof {
            fs = fs.push(FieldValue::Num(self.amount_in_pool));
        }
        assert(fs =~= self@);
        out
    }

    /// Decodes a record from the start of `b`; bytes after it are left alone.
    pub fn decode(b: &[u8]) -> (r: Result<(MarketDetails, usize), EngineError>)
        ensures
            decodes_as(market_kinds(), b@, r),
            r is Ok ==> r->Ok_0.0.wf(),
    {
        let mut c = Cursor::new(Ghost(market_kinds()), b);
        let admin = match c.read_key(b) {
            Some(v) => v,
            None => return Err(EngineError::DecodeError),
        };
        let trax_pub = match c.read_text(b) {
            Some(v) => v,
            None => return Err(EngineError::DecodeError),
        };
        let market_pair = match c.read_text(b) {
            Some(v) => v,
            None => return Err(EngineError::DecodeError),
        };
        let last_price = match c.read_num(b) {
            Some(v) => v,
            None => return Err(EngineError::DecodeError),
        };
        let upper_floor_limit = match c.read_num(b) {
            Some(v) => v,
            None => return Err(EngineError::DecodeError),
        };
        let lower_floor_limit = match c.read_num(b) {
            Some(v) => v,
            None => return Err(EngineError::DecodeError),
        };
        let market_status = match c.read_num(b) {
            Some(v) => v,
            None => return Err(EngineError::DecodeError),
        };
        let market_apy = match c.read_num(b) {
            Some(v) => v,
            None => return Err(EngineError::DecodeError),
        };
        let options_count = match c.read_num(b) {
            Some(v) => v,
            None => return Err(EngineError::DecodeError),
        };
        let amount_in_pool = match c.read_num(b) {
            Some(v) => v,
            None => return Err(EngineError::DecodeError),
        };
        proof {
            c.done(b@);
            lemma_parse_fields_fit(c.kinds@, b@);
        }
        let r = MarketDetails {
            admin,
            trax_pub,
            market_pair,
            last_price,
            upper_floor_limit,
            lower_floor_limit,
            market_status,
            market_apy,
            options_count,
            amount_in_pool,
        };
        assert(r@ =~= c.fields@);
        Ok((r, c.pos))
    }

    /// Decodes a record that takes up all of `b`.
    pub fn try_from_slice(b: &[u8]) -> (r: Result<MarketDetails, EngineError>)
        ensures
            decodes_exactly_as(market_kinds(), b@, r),
            r is Ok ==> r->Ok_0.wf(),
    {
        match MarketDetails::decode(b) {
            Ok((r, n)) => if n == b.len() {
                Ok(r)
            } else {
                Err(EngineError::DecodeError)
            },
            Err(e) => Err(e),
        }
    }
}

/// One placed bet, held by the trader's own account.
pub struct OptionsBetDetails {
    pub player: Vec<u8>,
    pub options_market: Vec<u8>,
    pub options_bet: u64,
    pub options_strike: u64,
    pub options_spread: u64,
    pub options_bet_start: u64,
    pub options_bet_end: u64,
    pub options_duration: u64,
    /// Stake moved into the market's pool.
    pub options_bet_amount: u64,
    /// "undecided", "won" or "lost".
    pub options_bet_result: Vec<u8>,
}

/// Field kinds of [`OptionsBetDetails`], in encoding order.
pub open spec fn options_bet_kinds() -> Seq<FieldKind> {
    seq![
        FieldKind::Text,
        FieldKind::Text,
        FieldKind::Num,
        FieldKind::Num,
        FieldKind::Num,
        FieldKind::Num,
        FieldKind::Num,
        FieldKind::Num,
        FieldKind::Num,
        FieldKind::Text,
    ]
}

impl View for OptionsBetDetails {
    type V = Seq<FieldValue>;

    open spec fn view(&self) -> Seq<FieldValue> {
        seq![
            FieldValue::Text(self.player@),
            FieldValue::Text(self.options_market@),
            FieldValue::Num(self.options_bet),
            FieldValue::Num(self.options_strike),
            FieldValue::Num(self.options_spread),
            FieldValue::Num(self.options_bet_start),
            FieldValue::Num(self.options_bet_end),
            FieldValue::Num(self.options_duration),
            FieldValue::Num(self.options_bet_amount),
            FieldValue::Text(self.options_bet_result@),
        ]
    }
}

impl OptionsBetDetails {
    /// Every text is UTF-8 and short enough for its length prefix.
    pub open spec fn wf(&self) -> bool {
        fields_fit(options_bet_kinds(), self@)
    }

    /// The record's bytes: its fields in declaration order.
    pub fn encode(&self) -> (r: Vec<u8>)
        requires
            self.wf(),
        ensures
            r@ == fields_bytes(self@),
    {
        let mut out: Vec<u8> = Vec::new();
        let ghost mut fs: Seq<FieldValue> = Seq::empty();
        assert(field_fits(options_bet_kinds()[0], self@[0]));
        put_text(&mut out, &self.player, Ghost(fs));
        proof {
            fs = fs.push(FieldValue::Text(self.player@));
        }
        assert(field_fits(options_bet_kinds()[1], self@[1]));
        put_text(&mut out, &self.options_market, Ghost(fs));
        proof {
            fs = fs.push(FieldValue::Text(self.options_market@));
        }
        put_num(&mut out, self.options_bet, Ghost(fs));
        proof {
            fs = fs.push(FieldValue::Num(self.options_bet));
        }
        put_num(&mut out, self.options_strike, Ghost(fs));
        proof {
            fs = fs.push(FieldValue::Num(self.options_strike));
        }
        put_num(&mut out, self.options_spread, Ghost(fs));
        proof {
            fs = fs.push(FieldValue::Num(self.options_spread));
        }
        put_num(&mut out, self.options_bet_start, Ghost(fs));
        proof {
            fs = fs.push(FieldValue::Num(self.options_bet_start));
        }
        put_num(&mut out, self.options_bet_end, Ghost(fs));
        proof {
            fs = fs.push(FieldValue::Num(self.options_bet_end));
        }
        put_num(&mut out, self.options_duration, Ghost(fs));
        proof {
            fs = fs.push(FieldValue::Num(self.options_duration));
        }
        put_num(&mut out, self.options_bet_amount, Ghost(fs));
        proof {
            fs = fs.push(FieldValue::Num(self.options_bet_amount));
        }
        assert(field_fits(options_bet_kinds()[9], self@[9]));
        put_text(&mut out, &self.options_bet_result, Ghost(fs));
        proof {
            fs = fs.push(FieldValue::Text(self.options_bet_result@));
        }
        assert(fs =~= self@);
        out
    }

    /// Decodes a record from the start of `b`; bytes after it are left alone.
    pub fn decode(b: &[u8]) -> (r: Result<(OptionsBetDetails, usize), EngineError>)
        ensures
            decodes_as(options_bet_kinds(), b@, r),
            r is Ok ==> r->Ok_0.0.wf(),
    {
        let mut c = Cursor::new(Ghost(options_bet_kinds()), b);
        let player = match c.read_text(b) {
            Some(v) => v,
            None => return Err(EngineError::DecodeError),
        };
        let options_market = match c.read_text(b) {
            Some(v) => v,
            None => return Err(EngineError::DecodeError),
        };
        let options_bet = match c.read_num(b) {
            Some(v) => v,
            None => return Err(EngineError::DecodeError),
        };
        let options_strike = match c.read_num(b) {
            Some(v) => v,
            None => return Err(EngineError::DecodeError),
        };
        let options_spread = match c.read_num(b) {
            Some(v) => v,
            None => return Err(EngineError::DecodeError),
        };
        let options_bet_start = match c.read_num(b) {
            Some(v) => v,
            None => return Err(EngineError::DecodeError),
        };
        let options_bet_end = match c.read_num(b) {
            Some(v) => v,
            None => return Err(EngineError::DecodeError),
        };
        let options_duration = match c.read_num(b) {
            Some(v) => v,
            None => return Err(EngineError::DecodeError),
        };
        let options_bet_amount = match c.read_num(b) {
            Some(v) => v,
            None => return Err(EngineError::DecodeError),
        };
        let options_bet_result = match c.read_text(b) {
            Some(v) => v,
            None => return Err(EngineError::DecodeError),
        };
        proof {
            c.done(b@);
            lemma_parse_fields_fit(c.kinds@, b@);
        }
        let r = OptionsBetDetails {
            player,
            options_market,
            options_bet,
            options_strike,
            options_spread,
            options_bet_start,
            options_bet_end,
            options_duration,
            options_bet_amount,
            options_bet_result,
        };
        assert(r@ =~= c.fields@);
        Ok((r, c.pos))
    }

    /// Decodes a record that takes up all of `b`.
    pub fn try_from_slice(b: &[u8]) -> (r: Result<OptionsBetDetails, EngineError>)
        ensures
            decodes_exactly_as(options_bet_kinds(), b@, r),
            r is Ok ==> r->Ok_0.wf(),
    {
        match OptionsBetDetails::decode(b) {
            Ok((r, n)) => if n == b.len() {
                Ok(r)
            } else {
                Err(EngineError::DecodeError)
            },
            Err(e) => Err(e),
        }
    }
}

/// Settlement payload: the outcome of one bet; never stored.
pub struct ResultDetails {
    pub player: [u8; 32],
    pub options_market: [u8; 32],
    pub final_price: Vec<u8>,
    pub result_status: Vec<u8>,
}

/// Field kinds of [`ResultDetails`], in encoding order.
pub open spec fn result_kinds() -> Seq<FieldKind> {
    seq![
        FieldKind::Key,
        FieldKind::Key,
        FieldKind::Text,
        FieldKind::Text,
    ]
}

impl View for ResultDetails {
    type V = Seq<FieldValue>;

    open spec fn view(&self) -> Seq<FieldValue> {
        seq![
            FieldValue::Key(self.player@),
            FieldValue::Key(self.options_market@),
            FieldValue::Text(self.final_price@),
            FieldValue::Text(self.result_status@),
        ]
    }
}

impl ResultDetails {
    /// Every text is UTF-8 and short enough for its length prefix.
    pub open spec fn wf(&self) -> bool {
        fields_fit(result_kinds(), self@)
    }

    /// The record's bytes: its fields in declaration order.
    pub fn encode(&self) -> (r: Vec<u8>)
        requires
            self.wf(),
        ensures
            r@ == fields_bytes(self@),
    {
        let mut out: Vec<u8> = Vec::new();
        let ghost mut fs: Seq<FieldValue> = Seq::empty();
        put_key(&mut out, &self.player, Ghost(fs));
        proof {
            fs = fs.push(FieldValue::Key(self.player@));
        }
        put_key(&mut out, &self.options_market, Ghost(fs));
        proof {
            fs = fs.push(FieldValue::Key(self.options_market@));
        }
        assert(field_fits(result_kinds()[2], self@[2]));
        put_text(&mut out, &self.final_price, Ghost(fs));
        proof {
            fs = fs.push(FieldValue::Text(self.final_price@));
        }
        assert(field_fits(result_kinds()[3], self@[3]));
        put_text(&mut out, &self.result_status, Ghost(fs));
        proof {
            fs = fs.push(FieldValue::Text(self.result_status@));
        }
        assert(fs =~= self@);
        out
    }

    /// Decodes a record from the start of `b`; bytes after it are left alone.
    pub fn decode(b: &[u8]) -> (r: Result<(ResultDetails, usize), EngineError>)
        ensures
            decodes_as(result_kinds(), b@, r),
            r is Ok ==> r->Ok_0.0.wf(),
    {
        let mut c = Cursor::new(Ghost(result_kinds()), b);
        let player = match c.read_key(b) {
            Some(v) => v,
            None => return Err(EngineError::DecodeError),
        };
        let options_market = match c.read_key(b) {
            Some(v) => v,
            None => return Err(EngineError::DecodeError),
        };
        let final_price = match c.read_text(b) {
            Some(v) => v,
            None => return Err(EngineError::DecodeError),
        };
        let result_status = match c.read_text(b) {
            Some(v) => v,
            None => return Err(EngineError::DecodeError),
        };
        proof {
            c.done(b@);
            lemma_parse_fields_fit(c.kinds@, b@);
        }
        let r = ResultDetails { player, options_market, final_price, result_status };
        assert(r@ =~= c.fields@);
        Ok((r, c.pos))
    }

    /// Decodes a record that takes up all of `b`.
    pub fn try_from_slice(b: &[u8]) -> (r: Result<ResultDetails, EngineError>)
        ensures
            decodes_exactly_as(result_kinds(), b@, r),
            r is Ok ==> r->Ok_0.wf(),
    {
        match ResultDetails::decode(b) {
            Ok((r, n)) => if n == b.len() {
                Ok(r)
            } else {
                Err(EngineError::DecodeError)
            },
            Err(e) => Err(e),
        }
    }
}

} // verus!
