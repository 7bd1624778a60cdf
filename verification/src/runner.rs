//! The cache of one runner's state, and the runner books made from it.
use vstd::prelude::*;
use crate::floatbits::{spec_float_eq, float_eq};
use crate::json::JsonValue;
use crate::ladder::{
    PriceLadder, TradedLadder, PriceSize, ladder_fold, next_generation, bump_generation,
    is_listing,
};
use crate::text::{str_eq, opt_str_view, clone_opt_string, opt_str_is};

verus! {

/// A starting-price value: a number, a string (such as `"Infinity"`) or nothing.
pub enum SpValue {
    Float(u64),
    Str(String),
    Null,
}

/// What a starting-price value holds.
pub enum SpView {
    Float(u64),
    Str(Seq<char>),
    Null,
}

impl View for SpValue {
    type V = SpView;

    open spec fn view(&self) -> SpView {
        match self {
            SpValue::Float(b) => SpView::Float(*b),
            SpValue::Str(s) => SpView::Str(s@),
            SpValue::Null => SpView::Null,
        }
    }
}

/// The starting-price value that a JSON value gives: its number when it is
/// one, else its string when it is one, else nothing.
pub open spec fn sp_view_of(v: JsonValue) -> SpView {
    match v.f64_value() {
        Some(b) => SpView::Float(b),
        None => match v.str_value() {
            Some(s) => SpView::Str(s),
            None => SpView::Null,
        },
    }
}

impl SpValue {
    /// Reads a starting-price value from JSON.
    pub fn from_json(v: &JsonValue) -> (r: SpValue)
        ensures
            r@ == sp_view_of(*v),
    {
        if let Some(f) = v.as_f64() {
            SpValue::Float(f)
        } else if let Some(s) = v.as_str() {
            SpValue::Str(s.to_owned())
        } else {
            SpValue::Null
        }
    }

    /// A copy of the value.
    pub fn duplicate(&self) -> (r: SpValue)
        ensures
            r@ == self@,
    {
        match self {
            SpValue::Float(b) => SpValue::Float(*b),
            SpValue::Str(s) => SpValue::Str(s.clone()),
            SpValue::Null => SpValue::Null,
        }
    }
}

/// The state of a runner as the cache holds it.  Besides the runner's data it
/// holds the generation counters of its three exchange ladders and, for the
/// book and the ladder listings last handed out, the generation each was made
/// at (nothing before the first book).
pub ghost struct RunnerView {
    pub selection_id: i64,
    pub handicap: u64,
    pub status: Seq<char>,
    pub adjustment_factor: Option<u64>,
    pub last_price_traded: Option<u64>,
    pub total_matched: u64,
    pub removal_date: Option<Seq<char>>,
    pub available_to_back: Map<u64, u64>,
    pub available_to_lay: Map<u64, u64>,
    pub traded: Map<u64, u64>,
    pub near_price: SpView,
    pub far_price: SpView,
    pub actual_sp: SpView,
    pub back_stake_taken: Map<u64, u64>,
    pub lay_liability_taken: Map<u64, u64>,
    pub generation: u64,
    pub back_generation: u64,
    pub lay_generation: u64,
    pub traded_generation: u64,
    pub book_stamp: Option<u64>,
    pub back_stamp: Option<u64>,
    pub lay_stamp: Option<u64>,
    pub traded_stamp: Option<u64>,
}

/// A number field after an update that may carry a new value: an equal value
/// leaves the field (and its bits) as they were.
pub open spec fn float_opt_after(old: Option<u64>, new: Option<u64>) -> (Option<u64>, bool) {
    match new {
        Some(v) => if old matches Some(o) && spec_float_eq(o, v) {
            (old, false)
        } else {
            (Some(v), true)
        },
        None => (old, false),
    }
}

/// A number field that always holds a value, after an update that may carry one.
pub open spec fn float_after(old: u64, new: Option<u64>) -> (u64, bool) {
    match new {
        Some(v) => if spec_float_eq(old, v) {
            (old, false)
        } else {
            (v, true)
        },
        None => (old, false),
    }
}

/// A text field after an update that may carry a new text.
pub open spec fn text_after(old: Seq<char>, new: Option<Seq<char>>) -> (Seq<char>, bool) {
    match new {
        Some(s) => if old == s {
            (old, false)
        } else {
            (s, true)
        },
        None => (old, false),
    }
}

/// An optional text field after an update that may carry a new text.
pub open spec fn text_opt_after(old: Option<Seq<char>>, new: Option<Seq<char>>) -> (
    Option<Seq<char>>,
    bool,
) {
    match new {
        Some(s) => if old == Some(s) {
            (old, false)
        } else {
            (Some(s), true)
        },
        None => (old, false),
    }
}

/// A ladder after an update that may carry a batch of ladder updates.
pub open spec fn ladder_after(old: Map<u64, u64>, new: Option<Seq<JsonValue>>) -> (
    Map<u64, u64>,
    bool,
) {
    match new {
        Some(us) => ladder_fold(old, us),
        None => (old, false),
    }
}

/// Two starting-price values hold the same data: equal numbers (compared as
/// floats), equal strings, or both nothing.
pub open spec fn sp_same(a: SpView, b: SpView) -> bool {
    match (a, b) {
        (SpView::Float(x), SpView::Float(y)) => spec_float_eq(x, y),
        (SpView::Str(x), SpView::Str(y)) => x == y,
        (SpView::Null, SpView::Null) => true,
        _ => false,
    }
}

/// A starting-price field set to `new`: a value holding the same data leaves
/// the field as it was and is no change.
pub open spec fn sp_replace(old: SpView, new: SpView) -> (SpView, bool) {
    if sp_same(old, new) {
        (old, false)
    } else {
        (new, true)
    }
}

/// A starting-price field after an update that may carry a new value.
pub open spec fn sp_after(old: SpView, new: Option<JsonValue>) -> (SpView, bool) {
    match new {
        Some(v) => sp_replace(old, sp_view_of(v)),
        None => (old, false),
    }
}

/// The generation of a ladder after an update that did (`changed`) or did not
/// change it.
pub open spec fn generation_after(g: u64, changed: bool) -> u64 {
    if changed {
        next_generation(g)
    } else {
        g
    }
}

/// A runner after a runner change `rc` from the stream, and whether it changed.
/// The change's `spb` (starting price back) updates the lay liability taken and
/// its `spl` (starting price lay) the back stake taken.
pub open spec fn runner_update(r: RunnerView, rc: JsonValue) -> (RunnerView, bool) {
    let status = text_after(r.status, rc.field_str("status"@));
    let af = float_opt_after(r.adjustment_factor, rc.field_f64("adjustmentFactor"@));
    let ltp = float_opt_after(r.last_price_traded, rc.field_f64("ltp"@));
    let tv = float_after(r.total_matched, rc.field_f64("tv"@));
    let rd = text_opt_after(r.removal_date, rc.field_str("removalDate"@));
    let liability = ladder_after(r.lay_liability_taken, rc.field_array("spb"@));
    let stake = ladder_after(r.back_stake_taken, rc.field_array("spl"@));
    let atb = ladder_after(r.available_to_back, rc.field_array("atb"@));
    let atl = ladder_after(r.available_to_lay, rc.field_array("atl"@));
    let trd = ladder_after(r.traded, rc.field_array("trd"@));
    let near = sp_after(r.near_price, rc.field("spn"@));
    let far = sp_after(r.far_price, rc.field("spf"@));
    let changed = status.1 || af.1 || ltp.1 || tv.1 || rd.1 || liability.1 || stake.1 || atb.1
        || atl.1 || trd.1 || near.1 || far.1;
    (
        RunnerView {
            status: status.0,
            adjustment_factor: af.0,
            last_price_traded: ltp.0,
            total_matched: tv.0,
            removal_date: rd.0,
            lay_liability_taken: liability.0,
            back_stake_taken: stake.0,
            available_to_back: atb.0,
            available_to_lay: atl.0,
            traded: trd.0,
            near_price: near.0,
            far_price: far.0,
            generation: generation_after(r.generation, changed),
            back_generation: generation_after(r.back_generation, atb.1),
            lay_generation: generation_after(r.lay_generation, atl.1),
            traded_generation: generation_after(r.traded_generation, trd.1),
            ..r
        },
        changed,
    )
}

/// A runner after the entry for it in a market definition, and whether it
/// changed.  The entry's `bsp` becomes the actual starting price (nothing when
/// absent); status, actual starting price, adjustment factor and removal date
/// count as a change only when they take a different value.
pub open spec fn runner_definition_update(r: RunnerView, def: JsonValue) -> (RunnerView, bool) {
    let status = text_after(r.status, def.field_str("status"@));
    let bsp = sp_replace(
        r.actual_sp,
        match def.field("bsp"@) {
            Some(v) => sp_view_of(v),
            None => SpView::Null,
        },
    );
    let af = float_opt_after(r.adjustment_factor, def.field_f64("adjustmentFactor"@));
    let rd = text_opt_after(r.removal_date, def.field_str("removalDate"@));
    let changed = status.1 || bsp.1 || af.1 || rd.1;
    (
        RunnerView {
            status: status.0,
            actual_sp: bsp.0,
            adjustment_factor: af.0,
            removal_date: rd.0,
            generation: generation_after(r.generation, changed),
            ..r
        },
        changed,
    )
}

/// The runner once a book has been made of it.  While its generation is the
/// one the previous book was made at, that book is handed out again and
/// nothing changes; otherwise the new book and its ladder listings are stamped
/// with the generations they were made at.
pub open spec fn runner_after_book(r: RunnerView) -> RunnerView {
    if r.book_stamp == Some(r.generation) {
        r
    } else {
        RunnerView {
            book_stamp: Some(r.generation),
            back_stamp: Some(r.back_generation),
            lay_stamp: Some(r.lay_generation),
            traded_stamp: Some(r.traded_generation),
            ..r
        }
    }
}

/// The state of a freshly seen runner.
pub open spec fn runner_initial(selection_id: i64, handicap: u64) -> RunnerView {
    RunnerView {
        selection_id,
        handicap,
        status: "ACTIVE"@,
        adjustment_factor: None,
        last_price_traded: None,
        total_matched: 0,
        removal_date: None,
        available_to_back: Map::empty(),
        available_to_lay: Map::empty(),
        traded: Map::empty(),
        near_price: SpView::Null,
        far_price: SpView::Null,
        actual_sp: SpView::Null,
        back_stake_taken: Map::empty(),
        lay_liability_taken: Map::empty(),
        generation: 0,
        back_generation: 0,
        lay_generation: 0,
        traded_generation: 0,
        book_stamp: None,
        back_stamp: None,
        lay_stamp: None,
        traded_stamp: None,
    }
}

/// Prices available for a runner.  Each listing comes with a flag that tells
/// whether its ladder is unchanged since the listing handed out with the
/// runner's previous book, so that a holder of that listing may keep it.
pub struct ExchangePrices {
    /// Prices available to back, best (highest) first.
    pub available_to_back: Vec<PriceSize>,
    /// Prices available to lay, best (lowest) first.
    pub available_to_lay: Vec<PriceSize>,
    /// Traded volume by price, ascending.
    pub traded_volume: Vec<PriceSize>,
    pub available_to_back_reused: bool,
    pub available_to_lay_reused: bool,
    pub traded_volume_reused: bool,
}

/// Starting prices of a runner.
pub struct StartingPrices {
    pub near_price: SpValue,
    pub far_price: SpValue,
    pub actual_sp: SpValue,
    /// Back stake taken, ascending by price.
    pub back_stake_taken: Vec<PriceSize>,
    /// Lay liability taken, descending by price.
    pub lay_liability_taken: Vec<PriceSize>,
}

/// A runner's book within a market book.  `reused` tells whether the runner is
/// unchanged since its previous book, which then equals this one.
pub struct RunnerBook {
    pub selection_id: i64,
    pub handicap: u64,
    pub status: String,
    pub adjustment_factor: Option<u64>,
    pub last_price_traded: Option<u64>,
    pub total_matched: u64,
    pub removal_date: Option<String>,
    pub ex: ExchangePrices,
    pub sp: StartingPrices,
    pub reused: bool,
}

/// `b` is the book of the runner whose state is `r`.
pub open spec fn is_book_of(b: RunnerBook, r: RunnerView) -> bool {
    &&& b.selection_id == r.selection_id
    &&& b.handicap == r.handicap
    &&& b.status@ == r.status
    &&& b.adjustment_factor == r.adjustment_factor
    &&& b.last_price_traded == r.last_price_traded
    &&& b.total_matched == r.total_matched
    &&& opt_str_view(b.removal_date) == r.removal_date
    &&& is_listing(b.ex.available_to_back@, r.available_to_back, true)
    &&& is_listing(b.ex.available_to_lay@, r.available_to_lay, false)
    &&& is_listing(b.ex.traded_volume@, r.traded, false)
    &&& b.sp.near_price@ == r.near_price
    &&& b.sp.far_price@ == r.far_price
    &&& b.sp.actual_sp@ == r.actual_sp
    &&& is_listing(b.sp.back_stake_taken@, r.back_stake_taken, false)
    &&& is_listing(b.sp.lay_liability_taken@, r.lay_liability_taken, true)
    &&& b.reused == (r.book_stamp == Some(r.generation))
    &&& b.ex.available_to_back_reused == (r.back_stamp == Some(r.back_generation))
    &&& b.ex.available_to_lay_reused == (r.lay_stamp == Some(r.lay_generation))
    &&& b.ex.traded_volume_reused == (r.traded_stamp == Some(r.traded_generation))
}

/// The state of one runner's cache.
struct RunnerState {
    selection_id: i64,
    handicap: u64,
    status: String,
    adjustment_factor: Option<u64>,
    last_price_traded: Option<u64>,
    total_matched: u64,
    removal_date: Option<String>,
    available_to_back: PriceLadder,
    available_to_lay: PriceLadder,
    traded: TradedLadder,
    sp_near_price: SpValue,
    sp_far_price: SpValue,
    sp_actual_sp: SpValue,
    sp_back_stake_taken: PriceLadder,
    sp_lay_liability_taken: PriceLadder,
    generation: u64,
    book_stamp: Option<u64>,
    back_stamp: Option<u64>,
    lay_stamp: Option<u64>,
    traded_stamp: Option<u64>,
}

impl View for RunnerState {
    type V = RunnerView;

    closed spec fn view(&self) -> RunnerView {
        RunnerView {
            selection_id: self.selection_id,
            handicap: self.handicap,
            status: self.status@,
            adjustment_factor: self.adjustment_factor,
            last_price_traded: self.last_price_traded,
            total_matched: self.total_matched,
            removal_date: opt_str_view(self.removal_date),
            available_to_back: self.available_to_back.levels(),
            available_to_lay: self.available_to_lay.levels(),
            traded: self.traded.levels(),
            near_price: self.sp_near_price@,
            far_price: self.sp_far_price@,
            actual_sp: self.sp_actual_sp@,
            back_stake_taken: self.sp_back_stake_taken.levels(),
            lay_liability_taken: self.sp_lay_liability_taken.levels(),
            generation: self.generation,
            back_generation: self.available_to_back.spec_generation(),
            lay_generation: self.available_to_lay.spec_generation(),
            traded_generation: self.traded.spec_generation(),
            book_stamp: self.book_stamp,
            back_stamp: self.back_stamp,
            lay_stamp: self.lay_stamp,
            traded_stamp: self.traded_stamp,
        }
    }
}

impl RunnerState {
    /// The state's invariant: its ladders list in their fixed orders.
    closed spec fn wf(&self) -> bool {
        &&& self.available_to_back.is_reverse()
        &&& !self.available_to_lay.is_reverse()
        &&& !self.sp_back_stake_taken.is_reverse()
        &&& self.sp_lay_liability_taken.is_reverse()
    }

    /// A state holding no runner, to stand in for a cache's state while that
    /// state is being updated.
    fn blank() -> (r: RunnerState)
        ensures
            r.wf(),
    {
        RunnerState {
            selection_id: 0,
            handicap: 0,
            status: String::new(),
            adjustment_factor: None,
            last_price_traded: None,
            total_matched: 0,
            removal_date: None,
            available_to_back: PriceLadder::new(true),
            available_to_lay: PriceLadder::new(false),
            traded: TradedLadder::new(),
            sp_near_price: SpValue::Null,
            sp_far_price: SpValue::Null,
            sp_actual_sp: SpValue::Null,
            sp_back_stake_taken: PriceLadder::new(false),
            sp_lay_liability_taken: PriceLadder::new(true),
            generation: 0,
            book_stamp: None,
            back_stamp: None,
            lay_stamp: None,
            traded_stamp: None,
        }
    }

    /// A runner seen for the first time: active, with empty ladders.
    fn new(selection_id: i64, handicap: u64) -> (r: RunnerState)
        ensures
            r.wf(),
            r@ == runner_initial(selection_id, handicap),
    {
        RunnerState {
            selection_id,
            handicap,
            status: "ACTIVE".to_owned(),
            adjustment_factor: None,
            last_price_traded: None,
            total_matched: 0,
            removal_date: None,
            available_to_back: PriceLadder::new(true),
            available_to_lay: PriceLadder::new(false),
            traded: TradedLadder::new(),
            sp_near_price: SpValue::Null,
            sp_far_price: SpValue::Null,
            sp_actual_sp: SpValue::Null,
            sp_back_stake_taken: PriceLadder::new(false),
            sp_lay_liability_taken: PriceLadder::new(true),
            generation: 0,
            book_stamp: None,
            back_stamp: None,
            lay_stamp: None,
            traded_stamp: None,
        }
    }

    /// The runner's status.
    fn status(&self) -> (r: &str)
        ensures
            r@ == self@.status,
    {
        self.status.as_str()
    }

    /// The runner's generation counter.
    fn generation(&self) -> (r: u64)
        ensures
            r == self@.generation,
    {
        self.generation
    }

    /// Applies a runner change from the stream; tells whether anything changed.
    fn update(&mut self, rc: &JsonValue) -> (changed: bool)
        requires
            old(self).wf(),
        ensures
            final(self).wf(),
            (final(self)@, changed) == runner_update(old(self)@, *rc),
    {
        let c1 = update_text(&mut self.status, rc.get_str("status"));
        let c2 = update_float_opt(&mut self.adjustment_factor, rc.get_f64("adjustmentFactor"));
        let c3 = update_float_opt(&mut self.last_price_traded, rc.get_f64("ltp"));
        let c4 = update_float(&mut self.total_matched, rc.get_f64("tv"));
        let c5 = update_text_opt(&mut self.removal_date, rc.get_str("removalDate"));
        let c6 = update_ladder(&mut self.sp_lay_liability_taken, rc.get_array("spb"));
        let c7 = update_ladder(&mut self.sp_back_stake_taken, rc.get_array("spl"));
        let c8 = update_ladder(&mut self.available_to_back, rc.get_array("atb"));
        let c9 = update_ladder(&mut self.available_to_lay, rc.get_array("atl"));
        let c10 = match rc.get_array("trd") {
            Some(arr) => self.traded.update(arr),
            None => false,
        };
        let c11 = update_sp(&mut self.sp_near_price, rc.get("spn"));
        let c12 = update_sp(&mut self.sp_far_price, rc.get("spf"));
        let changed = c1 || c2 || c3 || c4 || c5 || c6 || c7 || c8 || c9 || c10 || c11 || c12;
        if changed {
            self.generation = bump_generation(self.generation);
        }
        proof {
            assert(self@ =~= runner_update(old(self)@, *rc).0);
        }
        changed
    }

    /// Applies the runner's entry of a market definition; tells whether
    /// anything changed.
    fn update_from_definition(&mut self, def: &JsonValue) -> (changed: bool)
        requires
            old(self).wf(),
        ensures
            final(self).wf(),
            (final(self)@, changed) == runner_definition_update(old(self)@, *def),
    {
        let c1 = update_text(&mut self.status, def.get_str("status"));
        let bsp = match def.get("bsp") {
            Some(v) => SpValue::from_json(v),
            None => SpValue::Null,
        };
        let c2 = replace_sp(&mut self.sp_actual_sp, bsp);
        let c3 = update_float_opt(&mut self.adjustment_factor, def.get_f64("adjustmentFactor"));
        let c4 = update_text_opt(&mut self.removal_date, def.get_str("removalDate"));
        let changed = c1 || c2 || c3 || c4;
        if changed {
            self.generation = bump_generation(self.generation);
        }
        proof {
            assert(self@ =~= runner_definition_update(old(self)@, *def).0);
        }
        changed
    }

    /// Makes the runner's book (see `RunnerCache::to_runner`).
    fn to_runner(&mut self) -> (r: RunnerBook)
        requires
            old(self).wf(),
        ensures
            final(self).wf(),
            is_book_of(r, old(self)@),
            final(self)@ == runner_after_book(old(self)@),
    {
        let back_generation = self.available_to_back.generation();
        let lay_generation = self.available_to_lay.generation();
        let traded_generation = self.traded.generation();
        let reused = self.book_stamp == Some(self.generation);
        let sp = StartingPrices {
            near_price: self.sp_near_price.duplicate(),
            far_price: self.sp_far_price.duplicate(),
            actual_sp: self.sp_actual_sp.duplicate(),
            back_stake_taken: self.sp_back_stake_taken.to_price_sizes(),
            lay_liability_taken: self.sp_lay_liability_taken.to_price_sizes(),
        };
        let ex = ExchangePrices {
            available_to_back: self.available_to_back.to_price_sizes(),
            available_to_lay: self.available_to_lay.to_price_sizes(),
            traded_volume: self.traded.to_price_sizes(),
            available_to_back_reused: self.back_stamp == Some(back_generation),
            available_to_lay_reused: self.lay_stamp == Some(lay_generation),
            traded_volume_reused: self.traded_stamp == Some(traded_generation),
        };
        let book = RunnerBook {
            selection_id: self.selection_id,
            handicap: self.handicap,
            status: self.status.clone(),
            adjustment_factor: self.adjustment_factor,
            last_price_traded: self.last_price_traded,
            total_matched: self.total_matched,
            removal_date: clone_opt_string(&self.removal_date),
            ex,
            sp,
            reused,
        };
        if !reused {
            self.book_stamp = Some(self.generation);
            self.back_stamp = Some(back_generation);
            self.lay_stamp = Some(lay_generation);
            self.traded_stamp = Some(traded_generation);
        }
        proof {
            assert(self@ =~= runner_after_book(old(self)@));
        }
        book
    }
}

/// The cache of one runner.
pub struct RunnerCache {
    state: RunnerState,
}

impl View for RunnerCache {
    type V = RunnerView;

    closed spec fn view(&self) -> RunnerView {
        self.state@
    }
}

impl RunnerCache {
    /// The cache's internal invariant: its ladders list in their fixed orders.
    #[verifier::type_invariant]
    closed spec fn wf(&self) -> bool {
        self.state.wf()
    }

    /// A runner seen for the first time: active, with empty ladders.
    pub fn new(selection_id: i64, handicap: u64) -> (r: RunnerCache)
        ensures
            r@ == runner_initial(selection_id, handicap),
    {
        RunnerCache { state: RunnerState::new(selection_id, handicap) }
    }

    /// The runner's status.
    pub fn status(&self) -> (r: &str)
        ensures
            r@ == self@.status,
    {
        self.state.status()
    }

    /// The runner's generation counter.
    pub fn generation(&self) -> (r: u64)
        ensures
            r == self@.generation,
    {
        self.state.generation()
    }

    /// Applies a runner change from the stream; tells whether anything changed.
    pub fn update(&mut self, rc: &JsonValue) -> (changed: bool)
        ensures
            (final(self)@, changed) == runner_update(old(self)@, *rc),
    {
        proof {
            use_type_invariant(&*self);
        }
        let mut state = RunnerState::blank();
        std::mem::swap(&mut state, &mut self.state);
        let changed = state.update(rc);
        self.state = state;
        changed
    }

    /// Applies the runner's entry of a market definition; tells whether
    /// anything changed.
    pub fn update_from_definition(&mut self, def: &JsonValue) -> (changed: bool)
        ensures
            (final(self)@, changed) == runner_definition_update(old(self)@, *def),
    {
        proof {
            use_type_invariant(&*self);
        }
        let mut state = RunnerState::blank();
        std::mem::swap(&mut state, &mut self.state);
        let changed = state.update_from_definition(def);
        self.state = state;
        changed
    }

    /// The runner's book: its fields, its ladders in their display orders and
    /// its starting prices.  The book says whether the runner is unchanged
    /// since its previous book, and each exchange listing whether its ladder
    /// is unchanged since the listing handed out before; a new book stamps
    /// itself and its listings with the generations they were made at.
    pub fn to_runner(&mut self) -> (r: RunnerBook)
        ensures
            is_book_of(r, old(self)@),
            final(self)@ == runner_after_book(old(self)@),
    {
        proof {
            use_type_invariant(&*self);
        }
        let mut state = RunnerState::blank();
        std::mem::swap(&mut state, &mut self.state);
        let book = state.to_runner();
        self.state = state;
        book
    }
}

/// Sets a text field to a new text, when one is given and differs.
fn update_text(field: &mut String, new: Option<&str>) -> (c: bool)
    ensures
        (final(field)@, c) == text_after(old(field)@, match new {
            Some(s) => Some(s@),
            None => None,
        }),
{
    if let Some(s) = new {
        if !str_eq(field.as_str(), s) {
            *field = s.to_owned();
            return true;
        }
    }
    false
}

/// Sets an optional text field to a new text, when one is given and differs.
fn update_text_opt(field: &mut Option<String>, new: Option<&str>) -> (c: bool)
    ensures
        (opt_str_view(*final(field)), c) == text_opt_after(opt_str_view(*old(field)), match new {
            Some(s) => Some(s@),
            None => None,
        }),
{
    if let Some(s) = new {
        if !opt_str_is(field, s) {
            *field = Some(s.to_owned());
            return true;
        }
    }
    false
}

/// Sets an optional number field to a new value, when one is given and is not equal.
fn update_float_opt(field: &mut Option<u64>, new: Option<u64>) -> (c: bool)
    ensures
        (*final(field), c) == float_opt_after(*old(field), new),
{
    if let Some(v) = new {
        let same = match *field {
            Some(o) => float_eq(o, v),
            None => false,
        };
        if !same {
            *field = Some(v);
            return true;
        }
    }
    false
}

/// Sets a number field to a new value, when one is given and is not equal.
fn update_float(field: &mut u64, new: Option<u64>) -> (c: bool)
    ensures
        (*final(field), c) == float_after(*old(field), new),
{
    if let Some(v) = new {
        if !float_eq(*field, v) {
            *field = v;
            return true;
        }
    }
    false
}

/// Applies a batch of ladder updates, when one is given.
fn update_ladder(ladder: &mut PriceLadder, new: Option<&Vec<JsonValue>>) -> (c: bool)
    ensures
        final(ladder).is_reverse() == old(ladder).is_reverse(),
        final(ladder).spec_generation() == generation_after(old(ladder).spec_generation(), c),
        (final(ladder).levels(), c) == ladder_after(old(ladder).levels(), match new {
            Some(v) => Some(v@),
            None => None,
        }),
{
    match new {
        Some(arr) => ladder.update(arr),
        None => false,
    }
}

/// Whether two starting-price values hold the same data.
fn sp_equal(a: &SpValue, b: &SpValue) -> (r: bool)
    ensures
        r == sp_same(a@, b@),
{
    match (a, b) {
        (SpValue::Float(x), SpValue::Float(y)) => float_eq(*x, *y),
        (SpValue::Str(x), SpValue::Str(y)) => str_eq(x.as_str(), y.as_str()),
        (SpValue::Null, SpValue::Null) => true,
        _ => false,
    }
}

/// Sets a starting-price field to `new`, unless it holds the same data.
fn replace_sp(field: &mut SpValue, new: SpValue) -> (c: bool)
    ensures
        (final(field)@, c) == sp_replace(old(field)@, new@),
{
    if sp_equal(field, &new) {
        false
    } else {
        *field = new;
        true
    }
}

/// Sets a starting-price field to a new value, when one is given and it holds
/// different data.
fn update_sp(field: &mut SpValue, new: Option<&JsonValue>) -> (c: bool)
    ensures
        (final(field)@, c) == sp_after(old(field)@, match new {
            Some(v) => Some(*v),
            None => None,
        }),
{
    match new {
        Some(v) => replace_sp(field, SpValue::from_json(v)),
        None => false,
    }
}

} // verus!
