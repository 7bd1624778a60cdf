//! Market books as plain dictionaries: nested maps of strings, numbers and
//! lists in the lightweight layout of the Betfair stream API.
use vstd::prelude::*;
use crate::definition::{MarketDefinition, MarketDefinitionRunner};
use crate::floatbits::{spec_is_zero, is_zero};
use crate::ladder::PriceSize;
use crate::market::MarketBook;
use crate::runner::{RunnerBook, SpValue, SpView};
use crate::text::opt_str_view;

verus! {

/// A value of a plain dictionary: null, boolean, integer, number (bit pattern),
/// string, list or dictionary (entries in order).
pub enum DictValue {
    Null,
    Bool(bool),
    Int(i64),
    Float(u64),
    Str(String),
    List(Vec<DictValue>),
    Dict(Vec<(String, DictValue)>),
}

/// What a dictionary value holds.
pub enum DictView {
    Null,
    Bool(bool),
    Int(i64),
    Float(u64),
    Str(Seq<char>),
    List(Seq<DictView>),
    Dict(Seq<(Seq<char>, DictView)>),
}

/// What a dictionary value holds.
pub open spec fn dict_view(v: DictValue) -> DictView
    decreases v,
{
    match v {
        DictValue::Null => DictView::Null,
        DictValue::Bool(b) => DictView::Bool(b),
        DictValue::Int(i) => DictView::Int(i),
        DictValue::Float(f) => DictView::Float(f),
        DictValue::Str(s) => DictView::Str(s@),
        DictValue::List(items) => DictView::List(
            Seq::new(
                items@.len(),
                |i: int|
                    {
                        if 0 <= i < items@.len() {
                            proof {
                                assert(decreases_to!(v => items));
                                assert(decreases_to!(items => items@));
                                assert(decreases_to!(items@ => items@[i]));
                            }
                            dict_view(items@[i])
                        } else {
                            DictView::Null
                        }
                    },
            ),
        ),
        DictValue::Dict(entries) => DictView::Dict(
            Seq::new(
                entries@.len(),
                |i: int|
                    {
                        if 0 <= i < entries@.len() {
                            proof {
                                assert(decreases_to!(v => entries));
                                assert(decreases_to!(entries => entries@));
                                assert(decreases_to!(entries@ => entries@[i]));
                                assert(decreases_to!(entries@[i] => entries@[i].1));
                            }
                            (entries@[i].0@, dict_view(entries@[i].1))
                        } else {
                            (Seq::empty(), DictView::Null)
                        }
                    },
            ),
        ),
    }
}

/// What a list of dictionary values holds.
pub open spec fn list_view(s: Seq<DictValue>) -> Seq<DictView> {
    Seq::new(s.len(), |i: int| dict_view(s[i]))
}

/// What the entries of a dictionary hold.
pub open spec fn entries_view(s: Seq<(String, DictValue)>) -> Seq<(Seq<char>, DictView)> {
    Seq::new(s.len(), |i: int| (s[i].0@, dict_view(s[i].1)))
}

/// A list value holds what its elements hold.
proof fn lemma_list(items: Vec<DictValue>)
    ensures
        dict_view(DictValue::List(items)) == DictView::List(list_view(items@)),
{
    if let DictView::List(s) = dict_view(DictValue::List(items)) {
        assert(s =~= list_view(items@));
    }
}

/// A dictionary value holds what its entries hold.
proof fn lemma_dict(entries: Vec<(String, DictValue)>)
    ensures
        dict_view(DictValue::Dict(entries)) == DictView::Dict(entries_view(entries@)),
{
    if let DictView::Dict(s) = dict_view(DictValue::Dict(entries)) {
        assert(s =~= entries_view(entries@));
    }
}

/// Appends an entry to a dictionary under construction.
fn push_entry(entries: &mut Vec<(String, DictValue)>, key: &str, v: DictValue)
    ensures
        entries_view(final(entries)@) == entries_view(old(entries)@).push((key@, dict_view(v))),
{
    let ghost v0 = v;
    entries.push((key.to_owned(), v));
    proof {
        assert(entries_view(entries@) =~= entries_view(old(entries)@).push((key@, dict_view(v0))));
    }
}

/// A dictionary from its entries.
fn make_dict(entries: Vec<(String, DictValue)>) -> (r: DictValue)
    ensures
        dict_view(r) == DictView::Dict(entries_view(entries@)),
{
    proof {
        lemma_dict(entries);
    }
    DictValue::Dict(entries)
}

/// An optional string: the string, or null.
pub open spec fn opt_str_dict(o: Option<Seq<char>>) -> DictView {
    match o {
        Some(s) => DictView::Str(s),
        None => DictView::Null,
    }
}

/// An optional number: the number, or null.
pub open spec fn opt_float_dict(o: Option<u64>) -> DictView {
    match o {
        Some(f) => DictView::Float(f),
        None => DictView::Null,
    }
}

/// An optional integer: the integer, or null.
pub open spec fn opt_int_dict(o: Option<i64>) -> DictView {
    match o {
        Some(i) => DictView::Int(i),
        None => DictView::Null,
    }
}

/// A starting-price value: its number or string, or null.
pub open spec fn sp_dict(v: SpView) -> DictView {
    match v {
        SpView::Float(f) => DictView::Float(f),
        SpView::Str(s) => DictView::Str(s),
        SpView::Null => DictView::Null,
    }
}

/// A price and size: `{price, size}`.
pub open spec fn price_size_dict(p: PriceSize) -> DictView {
    DictView::Dict(seq![("price"@, DictView::Float(p.price)), ("size"@, DictView::Float(p.size))])
}

/// A list of prices and sizes.
pub open spec fn price_sizes_dict(v: Seq<PriceSize>) -> DictView {
    DictView::List(Seq::new(v.len(), |i: int| price_size_dict(v[i])))
}

/// A runner book: its fields, its exchange prices and its starting prices.
pub open spec fn runner_dict(r: RunnerBook) -> DictView {
    DictView::Dict(
        seq![
            ("selectionId"@, DictView::Int(r.selection_id)),
            ("handicap"@, DictView::Float(r.handicap)),
            ("status"@, DictView::Str(r.status@)),
            ("adjustmentFactor"@, opt_float_dict(r.adjustment_factor)),
            ("lastPriceTraded"@, opt_float_dict(r.last_price_traded)),
            ("totalMatched"@, DictView::Float(r.total_matched)),
            ("removalDate"@, opt_str_dict(opt_str_view(r.removal_date))),
            (
                "ex"@,
                DictView::Dict(
                    seq![
                        ("availableToBack"@, price_sizes_dict(r.ex.available_to_back@)),
                        ("availableToLay"@, price_sizes_dict(r.ex.available_to_lay@)),
                        ("tradedVolume"@, price_sizes_dict(r.ex.traded_volume@)),
                    ],
                ),
            ),
            (
                "sp"@,
                DictView::Dict(
                    seq![
                        ("nearPrice"@, sp_dict(r.sp.near_price@)),
                        ("farPrice"@, sp_dict(r.sp.far_price@)),
                        ("actualSP"@, sp_dict(r.sp.actual_sp@)),
                        ("backStakeTaken"@, price_sizes_dict(r.sp.back_stake_taken@)),
                        ("layLiabilityTaken"@, price_sizes_dict(r.sp.lay_liability_taken@)),
                    ],
                ),
            ),
        ],
    )
}

/// An entry present only when the optional value is.
pub open spec fn entry_if_some<A>(key: Seq<char>, o: Option<A>, f: spec_fn(A) -> DictView) -> Seq<(Seq<char>, DictView)> {
    match o {
        Some(a) => seq![(key, f(a))],
        None => Seq::empty(),
    }
}

/// A definition runner: its id, sort priority and status, then its adjustment
/// factor, name, handicap (when not zero), removal date and starting price,
/// each only when it has one.
pub open spec fn def_runner_dict(r: MarketDefinitionRunner) -> DictView {
    DictView::Dict(
        seq![
            ("id"@, DictView::Int(r.selection_id)),
            ("sortPriority"@, DictView::Int(r.sort_priority as i64)),
            ("status"@, DictView::Str(r.status@)),
        ] + entry_if_some("adjustmentFactor"@, r.adjustment_factor, |f: u64| DictView::Float(f))
            + entry_if_some("name"@, opt_str_view(r.name), |s: Seq<char>| DictView::Str(s)) + (
        if spec_is_zero(r.handicap) {
            Seq::empty()
        } else {
            seq![("hc"@, DictView::Float(r.handicap))]
        }) + entry_if_some(
            "removalDate"@,
            opt_str_view(r.removal_date),
            |s: Seq<char>| DictView::Str(s),
        ) + entry_if_some("bsp"@, r.bsp, |f: u64| DictView::Float(f)),
    )
}

/// A market definition in the stream's layout.
pub open spec fn definition_dict(d: MarketDefinition) -> DictView {
    DictView::Dict(
        seq![
            ("betDelay"@, DictView::Int(d.bet_delay as i64)),
            ("bettingType"@, opt_str_dict(opt_str_view(d.betting_type))),
            ("bspMarket"@, DictView::Bool(d.bsp_market)),
            ("bspReconciled"@, DictView::Bool(d.bsp_reconciled)),
            ("complete"@, DictView::Bool(d.complete)),
            ("countryCode"@, opt_str_dict(opt_str_view(d.country_code))),
            ("crossMatching"@, DictView::Bool(d.cross_matching)),
            ("discountAllowed"@, DictView::Bool(d.discount_allowed)),
            ("eventId"@, opt_str_dict(opt_str_view(d.event_id))),
            ("eventName"@, opt_str_dict(opt_str_view(d.event_name))),
            ("eventTypeId"@, opt_str_dict(opt_str_view(d.event_type_id))),
            ("inPlay"@, DictView::Bool(d.in_play)),
            ("marketBaseRate"@, DictView::Float(d.market_base_rate)),
            ("marketTime"@, opt_str_dict(opt_str_view(d.market_time))),
            ("marketType"@, opt_str_dict(opt_str_view(d.market_type))),
            ("name"@, opt_str_dict(opt_str_view(d.name))),
            ("numberOfActiveRunners"@, DictView::Int(d.number_of_active_runners as i64)),
            ("numberOfWinners"@, DictView::Int(d.number_of_winners as i64)),
            ("openDate"@, opt_str_dict(opt_str_view(d.open_date))),
            ("persistenceEnabled"@, DictView::Bool(d.persistence_enabled)),
            (
                "regulators"@,
                DictView::List(Seq::new(d.regulators@.len(), |i: int| DictView::Str(d.regulators@[i]@))),
            ),
            (
                "runners"@,
                DictView::List(Seq::new(d.runners@.len(), |i: int| def_runner_dict(d.runners@[i]))),
            ),
            ("runnersVoidable"@, DictView::Bool(d.runners_voidable)),
            ("status"@, DictView::Str(d.status@)),
            ("suspendTime"@, opt_str_dict(opt_str_view(d.suspend_time))),
            ("timezone"@, opt_str_dict(opt_str_view(d.timezone))),
            ("turnInPlayEnabled"@, DictView::Bool(d.turn_in_play_enabled)),
            ("venue"@, opt_str_dict(opt_str_view(d.venue))),
            ("version"@, DictView::Int(d.version)),
        ],
    )
}

/// A market book in the stream's layout; the definition appears only when the
/// book has one.
pub open spec fn book_dict(b: MarketBook) -> DictView {
    DictView::Dict(
        seq![
            ("marketId"@, DictView::Str(b.market_id@)),
            ("status"@, DictView::Str(b.status@)),
            ("betDelay"@, DictView::Int(b.bet_delay as i64)),
            ("bspReconciled"@, DictView::Bool(b.bsp_reconciled)),
            ("complete"@, DictView::Bool(b.complete)),
            ("crossMatching"@, DictView::Bool(b.cross_matching)),
            ("inplay"@, DictView::Bool(b.inplay)),
            ("numberOfActiveRunners"@, DictView::Int(b.number_of_active_runners as i64)),
            ("numberOfRunners"@, DictView::Int(b.number_of_runners as i64)),
            ("numberOfWinners"@, DictView::Int(b.number_of_winners as i64)),
            ("runnersVoidable"@, DictView::Bool(b.runners_voidable)),
            ("totalMatched"@, DictView::Float(b.total_matched)),
            ("version"@, DictView::Int(b.version)),
            ("lastMatchTime"@, opt_int_dict(b.last_match_time)),
            ("publishTime"@, DictView::Int(b.publish_time_millis)),
            ("runners"@, DictView::List(Seq::new(b.runners@.len(), |i: int| runner_dict(b.runners@[i])))),
        ] + match b.market_definition {
            Some(d) => seq![("marketDefinition"@, definition_dict(d))],
            None => Seq::empty(),
        },
    )
}

/// An optional string as a dictionary value.
fn opt_str_value(o: &Option<String>) -> (r: DictValue)
    ensures
        dict_view(r) == opt_str_dict(opt_str_view(*o)),
{
    match o {
        Some(s) => DictValue::Str(s.clone()),
        None => DictValue::Null,
    }
}

/// An optional number as a dictionary value.
fn opt_float_value(o: Option<u64>) -> (r: DictValue)
    ensures
        dict_view(r) == opt_float_dict(o),
{
    match o {
        Some(f) => DictValue::Float(f),
        None => DictValue::Null,
    }
}

/// An optional integer as a dictionary value.
fn opt_int_value(o: Option<i64>) -> (r: DictValue)
    ensures
        dict_view(r) == opt_int_dict(o),
{
    match o {
        Some(i) => DictValue::Int(i),
        None => DictValue::Null,
    }
}

/// A starting-price value as a dictionary value.
fn sp_value(v: &SpValue) -> (r: DictValue)
    ensures
        dict_view(r) == sp_dict(v@),
{
    match v {
        SpValue::Float(f) => DictValue::Float(*f),
        SpValue::Str(s) => DictValue::Str(s.clone()),
        SpValue::Null => DictValue::Null,
    }
}

/// A price and size as a dictionary.
fn price_size_value(p: PriceSize) -> (r: DictValue)
    ensures
        dict_view(r) == price_size_dict(p),
{
    let mut e: Vec<(String, DictValue)> = Vec::new();
    proof {
        assert(entries_view(e@) =~= Seq::<(Seq<char>, DictView)>::empty());
    }
    push_entry(&mut e, "price", DictValue::Float(p.price));
    push_entry(&mut e, "size", DictValue::Float(p.size));
    proof {
        assert(entries_view(e@) =~= seq![("price"@, DictView::Float(p.price)), ("size"@, DictView::Float(p.size))]);
    }
    make_dict(e)
}

/// A list of prices and sizes as a dictionary value.
fn price_sizes_value(v: &Vec<PriceSize>) -> (r: DictValue)
    ensures
        dict_view(r) == price_sizes_dict(v@),
{
    let n = v.len();
    let mut items: Vec<DictValue> = Vec::with_capacity(n);
    let mut i: usize = 0;
    while i < n
        invariant
            n == v@.len(),
            i <= n,
            items@.len() == i,
            forall|j: int| 0 <= j < i ==> dict_view(#[trigger] items@[j]) == price_size_dict(v@[j]),
        decreases n - i,
    {
        items.push(price_size_value(v[i]));
        i = i + 1;
    }
    proof {
        lemma_list(items);
        assert(list_view(items@) =~= Seq::new(v@.len(), |j: int| price_size_dict(v@[j])));
    }
    DictValue::List(items)
}

/// A runner book as a dictionary.
fn runner_value(r: &RunnerBook) -> (d: DictValue)
    ensures
        dict_view(d) == runner_dict(*r),
{
    let mut ex: Vec<(String, DictValue)> = Vec::new();
    proof {
        assert(entries_view(ex@) =~= Seq::<(Seq<char>, DictView)>::empty());
    }
    push_entry(&mut ex, "availableToBack", price_sizes_value(&r.ex.available_to_back));
    push_entry(&mut ex, "availableToLay", price_sizes_value(&r.ex.available_to_lay));
    push_entry(&mut ex, "tradedVolume", price_sizes_value(&r.ex.traded_volume));
    let mut sp: Vec<(String, DictValue)> = Vec::new();
    proof {
        assert(entries_view(sp@) =~= Seq::<(Seq<char>, DictView)>::empty());
    }
    push_entry(&mut sp, "nearPrice", sp_value(&r.sp.near_price));
    push_entry(&mut sp, "farPrice", sp_value(&r.sp.far_price));
    push_entry(&mut sp, "actualSP", sp_value(&r.sp.actual_sp));
    push_entry(&mut sp, "backStakeTaken", price_sizes_value(&r.sp.back_stake_taken));
    push_entry(&mut sp, "layLiabilityTaken", price_sizes_value(&r.sp.lay_liability_taken));
    proof {
        assert(entries_view(ex@) =~= seq![
            ("availableToBack"@, price_sizes_dict(r.ex.available_to_back@)),
            ("availableToLay"@, price_sizes_dict(r.ex.available_to_lay@)),
            ("tradedVolume"@, price_sizes_dict(r.ex.traded_volume@)),
        ]);
        assert(entries_view(sp@) =~= seq![
            ("nearPrice"@, sp_dict(r.sp.near_price@)),
            ("farPrice"@, sp_dict(r.sp.far_price@)),
            ("actualSP"@, sp_dict(r.sp.actual_sp@)),
            ("backStakeTaken"@, price_sizes_dict(r.sp.back_stake_taken@)),
            ("layLiabilityTaken"@, price_sizes_dict(r.sp.lay_liability_taken@)),
        ]);
    }
    let mut e: Vec<(String, DictValue)> = Vec::new();
    proof {
        assert(entries_view(e@) =~= Seq::<(Seq<char>, DictView)>::empty());
    }
    push_entry(&mut e, "selectionId", DictValue::Int(r.selection_id));
    push_entry(&mut e, "handicap", DictValue::Float(r.handicap));
    push_entry(&mut e, "status", DictValue::Str(r.status.clone()));
    push_entry(&mut e, "adjustmentFactor", opt_float_value(r.adjustment_factor));
    push_entry(&mut e, "lastPriceTraded", opt_float_value(r.last_price_traded));
    push_entry(&mut e, "totalMatched", DictValue::Float(r.total_matched));
    push_entry(&mut e, "removalDate", opt_str_value(&r.removal_date));
    push_entry(&mut e, "ex", make_dict(ex));
    push_entry(&mut e, "sp", make_dict(sp));
    proof {
        if let DictView::Dict(want) = runner_dict(*r) {
            assert(entries_view(e@) =~= want);
        }
    }
    make_dict(e)
}

/// A definition runner as a dictionary.
fn def_runner_value(r: &MarketDefinitionRunner) -> (d: DictValue)
    ensures
        dict_view(d) == def_runner_dict(*r),
{
    let mut e: Vec<(String, DictValue)> = Vec::new();
    proof {
        assert(entries_view(e@) =~= Seq::<(Seq<char>, DictView)>::empty());
    }
    push_entry(&mut e, "id", DictValue::Int(r.selection_id));
    push_entry(&mut e, "sortPriority", DictValue::Int(r.sort_priority as i64));
    push_entry(&mut e, "status", DictValue::Str(r.status.clone()));
    let ghost base = entries_view(e@);
    if let Some(f) = r.adjustment_factor {
        push_entry(&mut e, "adjustmentFactor", DictValue::Float(f));
    }
    let ghost after_af = entries_view(e@);
    if let Some(name) = &r.name {
        push_entry(&mut e, "name", DictValue::Str(name.clone()));
    }
    let ghost after_name = entries_view(e@);
    if !is_zero(r.handicap) {
        push_entry(&mut e, "hc", DictValue::Float(r.handicap));
    }
    let ghost after_hc = entries_view(e@);
    if let Some(rd) = &r.removal_date {
        push_entry(&mut e, "removalDate", DictValue::Str(rd.clone()));
    }
    let ghost after_rd = entries_view(e@);
    if let Some(b) = r.bsp {
        push_entry(&mut e, "bsp", DictValue::Float(b));
    }
    proof {
        assert(base =~= seq![
            ("id"@, DictView::Int(r.selection_id)),
            ("sortPriority"@, DictView::Int(r.sort_priority as i64)),
            ("status"@, DictView::Str(r.status@)),
        ]);
        assert(after_af =~= base + entry_if_some("adjustmentFactor"@, r.adjustment_factor, |f: u64| DictView::Float(f)));
        assert(after_name =~= after_af + entry_if_some("name"@, opt_str_view(r.name), |s: Seq<char>| DictView::Str(s)));
        assert(after_hc =~= after_name + (if spec_is_zero(r.handicap) {
            Seq::empty()
        } else {
            seq![("hc"@, DictView::Float(r.handicap))]
        }));
        assert(after_rd =~= after_hc + entry_if_some("removalDate"@, opt_str_view(r.removal_date), |s: Seq<char>| DictView::Str(s)));
        assert(entries_view(e@) =~= after_rd + entry_if_some("bsp"@, r.bsp, |f: u64| DictView::Float(f)));
        if let DictView::Dict(want) = def_runner_dict(*r) {
            assert(entries_view(e@) =~= want);
        }
    }
    make_dict(e)
}

/// The regulators of a definition as a list of strings.
fn regulators_value(d: &MarketDefinition) -> (r: DictValue)
    ensures
        dict_view(r) == DictView::List(Seq::new(d.regulators@.len(), |i: int| DictView::Str(d.regulators@[i]@))),
{
    let n = d.regulators.len();
    let mut regs: Vec<DictValue> = Vec::with_capacity(n);
    let mut i: usize = 0;
    while i < n
        invariant
            n == d.regulators@.len(),
            i <= n,
            regs@.len() == i,
            forall|j: int| 0 <= j < i ==> dict_view(#[trigger] regs@[j]) == DictView::Str(d.regulators@[j]@),
        decreases n - i,
    {
        regs.push(DictValue::Str(d.regulators[i].clone()));
        i = i + 1;
    }
    proof {
        lemma_list(regs);
        assert(list_view(regs@) =~= Seq::new(d.regulators@.len(), |j: int| DictView::Str(d.regulators@[j]@)));
    }
    DictValue::List(regs)
}

/// The runners of a definition as a list of dictionaries.
fn def_runners_value(d: &MarketDefinition) -> (r: DictValue)
    ensures
        dict_view(r) == DictView::List(Seq::new(d.runners@.len(), |i: int| def_runner_dict(d.runners@[i]))),
{
    let m = d.runners.len();
    let mut runners: Vec<DictValue> = Vec::with_capacity(m);
    let mut k: usize = 0;
    while k < m
        invariant
            m == d.runners@.len(),
            k <= m,
            runners@.len() == k,
            forall|j: int| 0 <= j < k ==> dict_view(#[trigger] runners@[j]) == def_runner_dict(d.runners@[j]),
        decreases m - k,
    {
        runners.push(def_runner_value(&d.runners[k]));
        k = k + 1;
    }
    proof {
        lemma_list(runners);
        assert(list_view(runners@) =~= Seq::new(d.runners@.len(), |j: int| def_runner_dict(d.runners@[j])));
    }
    DictValue::List(runners)
}

/// The first entries of a definition's dictionary, up to `marketType`.
fn push_definition_head(e: &mut Vec<(String, DictValue)>, d: &MarketDefinition)
    ensures
        entries_view(final(e)@) == entries_view(old(e)@) + definition_dict(*d)->Dict_0.take(15),
{
    let ghost e0 = entries_view(e@);
    push_entry(e, "betDelay", DictValue::Int(d.bet_delay as i64));
    push_entry(e, "bettingType", opt_str_value(&d.betting_type));
    push_entry(e, "bspMarket", DictValue::Bool(d.bsp_market));
    push_entry(e, "bspReconciled", DictValue::Bool(d.bsp_reconciled));
    push_entry(e, "complete", DictValue::Bool(d.complete));
    push_entry(e, "countryCode", opt_str_value(&d.country_code));
    push_entry(e, "crossMatching", DictValue::Bool(d.cross_matching));
    push_entry(e, "discountAllowed", DictValue::Bool(d.discount_allowed));
    push_entry(e, "eventId", opt_str_value(&d.event_id));
    push_entry(e, "eventName", opt_str_value(&d.event_name));
    push_entry(e, "eventTypeId", opt_str_value(&d.event_type_id));
    push_entry(e, "inPlay", DictValue::Bool(d.in_play));
    push_entry(e, "marketBaseRate", DictValue::Float(d.market_base_rate));
    push_entry(e, "marketTime", opt_str_value(&d.market_time));
    push_entry(e, "marketType", opt_str_value(&d.market_type));
    proof {
        assert(entries_view(e@) =~= e0 + definition_dict(*d)->Dict_0.take(15));
    }
}

/// The remaining entries of a definition's dictionary, from `name` on.
fn push_definition_tail(e: &mut Vec<(String, DictValue)>, d: &MarketDefinition)
    ensures
        entries_view(final(e)@) == entries_view(old(e)@) + definition_dict(*d)->Dict_0.skip(15),
{
    let ghost e0 = entries_view(e@);
    push_entry(e, "name", opt_str_value(&d.name));
    push_entry(e, "numberOfActiveRunners", DictValue::Int(d.number_of_active_runners as i64));
    push_entry(e, "numberOfWinners", DictValue::Int(d.number_of_winners as i64));
    push_entry(e, "openDate", opt_str_value(&d.open_date));
    push_entry(e, "persistenceEnabled", DictValue::Bool(d.persistence_enabled));
    push_entry(e, "regulators", regulators_value(d));
    push_entry(e, "runners", def_runners_value(d));
    push_entry(e, "runnersVoidable", DictValue::Bool(d.runners_voidable));
    push_entry(e, "status", DictValue::Str(d.status.clone()));
    push_entry(e, "suspendTime", opt_str_value(&d.suspend_time));
    push_entry(e, "timezone", opt_str_value(&d.timezone));
    push_entry(e, "turnInPlayEnabled", DictValue::Bool(d.turn_in_play_enabled));
    push_entry(e, "venue", opt_str_value(&d.venue));
    push_entry(e, "version", DictValue::Int(d.version));
    proof {
        assert(entries_view(e@) =~= e0 + definition_dict(*d)->Dict_0.skip(15));
    }
}

/// A market definition as a dictionary.
fn definition_value(d: &MarketDefinition) -> (r: DictValue)
    ensures
        dict_view(r) == definition_dict(*d),
{
    let mut e: Vec<(String, DictValue)> = Vec::new();
    proof {
        assert(entries_view(e@) =~= Seq::<(Seq<char>, DictView)>::empty());
    }
    push_definition_head(&mut e, d);
    push_definition_tail(&mut e, d);
    proof {
        let want = definition_dict(*d)->Dict_0;
        assert(want.take(15) + want.skip(15) =~= want);
        assert(entries_view(e@) =~= want);
    }
    make_dict(e)
}

impl MarketBook {
    /// The book as a dictionary in the stream's lightweight layout.
    pub fn to_dict(&self) -> (r: DictValue)
        ensures
            dict_view(r) == book_dict(*self),
    {
        let n = self.runners.len();
        let mut runners: Vec<DictValue> = Vec::with_capacity(n);
        let mut i: usize = 0;
        while i < n
            invariant
                n == self.runners@.len(),
                i <= n,
                runners@.len() == i,
                forall|j: int| 0 <= j < i ==> dict_view(#[trigger] runners@[j]) == runner_dict(self.runners@[j]),
            decreases n - i,
        {
            runners.push(runner_value(&self.runners[i]));
            i = i + 1;
        }
        proof {
            lemma_list(runners);
            assert(list_view(runners@) =~= Seq::new(self.runners@.len(), |j: int| runner_dict(self.runners@[j])));
        }
        let mut e: Vec<(String, DictValue)> = Vec::new();
        proof {
            assert(entries_view(e@) =~= Seq::<(Seq<char>, DictView)>::empty());
        }
        push_entry(&mut e, "marketId", DictValue::Str(self.market_id.clone()));
        push_entry(&mut e, "status", DictValue::Str(self.status.clone()));
        push_entry(&mut e, "betDelay", DictValue::Int(self.bet_delay as i64));
        push_entry(&mut e, "bspReconciled", DictValue::Bool(self.bsp_reconciled));
        push_entry(&mut e, "complete", DictValue::Bool(self.complete));
        push_entry(&mut e, "crossMatching", DictValue::Bool(self.cross_matching));
        push_entry(&mut e, "inplay", DictValue::Bool(self.inplay));
        push_entry(&mut e, "numberOfActiveRunners", DictValue::Int(self.number_of_active_runners as i64));
        push_entry(&mut e, "numberOfRunners", DictValue::Int(self.number_of_runners as i64));
        push_entry(&mut e, "numberOfWinners", DictValue::Int(self.number_of_winners as i64));
        push_entry(&mut e, "runnersVoidable", DictValue::Bool(self.runners_voidable));
        push_entry(&mut e, "totalMatched", DictValue::Float(self.total_matched));
        push_entry(&mut e, "version", DictValue::Int(self.version));
        push_entry(&mut e, "lastMatchTime", opt_int_value(self.last_match_time));
        push_entry(&mut e, "publishTime", DictValue::Int(self.publish_time_millis));
        push_entry(&mut e, "runners", DictValue::List(runners));
        let ghost before_def = entries_view(e@);
        if let Some(d) = &self.market_definition {
            push_entry(&mut e, "marketDefinition", definition_value(d));
        }
        proof {
            if let DictView::Dict(want) = book_dict(*self) {
                assert(entries_view(e@) =~= want);
            }
        }
        make_dict(e)
    }
}

} // verus!
