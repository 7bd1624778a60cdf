//! Market definitions: the metadata of a market and of its runners.
use vstd::prelude::*;
use crate::json::JsonValue;
use crate::text::{
    opt_str_view, clone_opt_string, strings_view, clone_strings, set_if, set_opt_string,
    to_opt_string,
};

verus! {

/// A runner as a market definition describes it.
pub struct MarketDefinitionRunner {
    pub selection_id: i64,
    pub sort_priority: i32,
    pub status: String,
    /// Bit pattern of the handicap.
    pub handicap: u64,
    pub adjustment_factor: Option<u64>,
    pub removal_date: Option<String>,
    pub name: Option<String>,
    pub bsp: Option<u64>,
}

/// What a definition runner holds.
pub ghost struct DefRunnerView {
    pub selection_id: i64,
    pub sort_priority: i32,
    pub status: Seq<char>,
    pub handicap: u64,
    pub adjustment_factor: Option<u64>,
    pub removal_date: Option<Seq<char>>,
    pub name: Option<Seq<char>>,
    pub bsp: Option<u64>,
}

impl View for MarketDefinitionRunner {
    type V = DefRunnerView;

    open spec fn view(&self) -> DefRunnerView {
        DefRunnerView {
            selection_id: self.selection_id,
            sort_priority: self.sort_priority,
            status: self.status@,
            handicap: self.handicap,
            adjustment_factor: self.adjustment_factor,
            removal_date: opt_str_view(self.removal_date),
            name: opt_str_view(self.name),
            bsp: self.bsp,
        }
    }
}

/// The definition runner that an entry of a definition's `runners` array
/// describes: a missing id, sort priority or handicap reads as zero, a missing
/// status as `"ACTIVE"`.
pub open spec fn def_runner_of(r: JsonValue) -> DefRunnerView {
    DefRunnerView {
        selection_id: r.field_i64("id"@).unwrap_or(0),
        sort_priority: r.field_i64("sortPriority"@).unwrap_or(0) as i32,
        status: r.field_str("status"@).unwrap_or("ACTIVE"@),
        handicap: r.field_f64("hc"@).unwrap_or(0),
        adjustment_factor: r.field_f64("adjustmentFactor"@),
        removal_date: r.field_str("removalDate"@),
        name: r.field_str("name"@),
        bsp: r.field_f64("bsp"@),
    }
}

/// What a list of definition runners holds.
pub open spec fn def_runners_view(v: Seq<MarketDefinitionRunner>) -> Seq<DefRunnerView> {
    v.map_values(|r: MarketDefinitionRunner| r@)
}

impl MarketDefinitionRunner {
    /// Reads a definition runner from an entry of a definition's `runners` array.
    pub fn from_json(r: &JsonValue) -> (d: MarketDefinitionRunner)
        ensures
            d@ == def_runner_of(*r),
    {
        MarketDefinitionRunner {
            selection_id: r.get_i64("id").unwrap_or(0),
            sort_priority: r.get_i64("sortPriority").unwrap_or(0) as i32,
            status: match r.get_str("status") {
                Some(s) => s.to_owned(),
                None => "ACTIVE".to_owned(),
            },
            handicap: r.get_f64("hc").unwrap_or(0),
            adjustment_factor: r.get_f64("adjustmentFactor"),
            removal_date: to_opt_string(r.get_str("removalDate")),
            name: to_opt_string(r.get_str("name")),
            bsp: r.get_f64("bsp"),
        }
    }

    /// A copy of the runner.
    pub fn duplicate(&self) -> (d: MarketDefinitionRunner)
        ensures
            d@ == self@,
    {
        MarketDefinitionRunner {
            selection_id: self.selection_id,
            sort_priority: self.sort_priority,
            status: self.status.clone(),
            handicap: self.handicap,
            adjustment_factor: self.adjustment_factor,
            removal_date: clone_opt_string(&self.removal_date),
            name: clone_opt_string(&self.name),
            bsp: self.bsp,
        }
    }
}

/// Reads the definition runners of a definition's `runners` array.
pub fn def_runners_from_json(arr: &Vec<JsonValue>) -> (r: Vec<MarketDefinitionRunner>)
    ensures
        def_runners_view(r@) == arr@.map_values(|v: JsonValue| def_runner_of(v)),
{
    let n = arr.len();
    let mut r: Vec<MarketDefinitionRunner> = Vec::with_capacity(n);
    let mut i: usize = 0;
    while i < n
        invariant
            n == arr@.len(),
            i <= n,
            r@.len() == i,
            forall|j: int| 0 <= j < i ==> #[trigger] r@[j]@ == def_runner_of(arr@[j]),
        decreases n - i,
    {
        r.push(MarketDefinitionRunner::from_json(&arr[i]));
        i = i + 1;
    }
    proof {
        assert(def_runners_view(r@) =~= arr@.map_values(|v: JsonValue| def_runner_of(v)));
    }
    r
}

/// A copy of a list of definition runners.
pub fn clone_def_runners(v: &Vec<MarketDefinitionRunner>) -> (r: Vec<MarketDefinitionRunner>)
    ensures
        def_runners_view(r@) == def_runners_view(v@),
{
    let n = v.len();
    let mut r: Vec<MarketDefinitionRunner> = Vec::with_capacity(n);
    let mut i: usize = 0;
    while i < n
        invariant
            n == v@.len(),
            i <= n,
            r@.len() == i,
            forall|j: int| 0 <= j < i ==> #[trigger] r@[j]@ == v@[j]@,
        decreases n - i,
    {
        r.push(v[i].duplicate());
        i = i + 1;
    }
    proof {
        assert(def_runners_view(r@) =~= def_runners_view(v@));
    }
    r
}

/// The strings among the elements of a JSON array, in order.
pub open spec fn str_elements(arr: Seq<JsonValue>) -> Seq<Seq<char>>
    decreases arr.len(),
{
    if arr.len() == 0 {
        Seq::empty()
    } else {
        let prev = str_elements(arr.drop_last());
        match arr.last().str_value() {
            Some(s) => prev.push(s),
            None => prev,
        }
    }
}

/// Reads the strings among the elements of a JSON array.
pub fn strings_from_json(arr: &Vec<JsonValue>) -> (r: Vec<String>)
    ensures
        strings_view(r@) == str_elements(arr@),
{
    let n = arr.len();
    let mut r: Vec<String> = Vec::new();
    let mut i: usize = 0;
    proof {
        assert(arr@.take(0) =~= Seq::<JsonValue>::empty());
        assert(strings_view(r@) =~= Seq::<Seq<char>>::empty());
    }
    while i < n
        invariant
            n == arr@.len(),
            i <= n,
            strings_view(r@) == str_elements(arr@.take(i as int)),
        decreases n - i,
    {
        let ghost before = r@;
        if let Some(s) = arr[i].as_str() {
            r.push(s.to_owned());
            proof {
                assert(strings_view(r@) =~= strings_view(before).push(s@));
            }
        }
        proof {
            assert(arr@.take(i + 1).drop_last() =~= arr@.take(i as int));
            assert(arr@.take(i + 1).last() == arr@[i as int]);
        }
        i = i + 1;
    }
    proof {
        assert(arr@.take(n as int) =~= arr@);
    }
    r
}

/// An optional text replaced by a new text when one is given.
pub open spec fn opt_set(old: Option<Seq<char>>, new: Option<Seq<char>>) -> Option<Seq<char>> {
    match new {
        Some(s) => Some(s),
        None => old,
    }
}

/// The status fields of a market, which market changes and market definitions
/// both carry.
pub struct StatusFields {
    pub status: String,
    pub bet_delay: i32,
    pub bsp_reconciled: bool,
    pub complete: bool,
    pub cross_matching: bool,
    pub inplay: bool,
    pub runners_voidable: bool,
}

/// What the status fields hold.
pub ghost struct StatusView {
    pub status: Seq<char>,
    pub bet_delay: i32,
    pub bsp_reconciled: bool,
    pub complete: bool,
    pub cross_matching: bool,
    pub inplay: bool,
    pub runners_voidable: bool,
}

impl View for StatusFields {
    type V = StatusView;

    open spec fn view(&self) -> StatusView {
        StatusView {
            status: self.status@,
            bet_delay: self.bet_delay,
            bsp_reconciled: self.bsp_reconciled,
            complete: self.complete,
            cross_matching: self.cross_matching,
            inplay: self.inplay,
            runners_voidable: self.runners_voidable,
        }
    }
}

/// The status fields after an object that may carry new values for them; a
/// bet delay is cut to 32 bits.
pub open spec fn status_after(s: StatusView, obj: JsonValue) -> StatusView {
    StatusView {
        status: set_if(s.status, obj.field_str("status"@)),
        bet_delay: match obj.field_i64("betDelay"@) {
            Some(v) => v as i32,
            None => s.bet_delay,
        },
        bsp_reconciled: set_if(s.bsp_reconciled, obj.field_bool("bspReconciled"@)),
        complete: set_if(s.complete, obj.field_bool("complete"@)),
        cross_matching: set_if(s.cross_matching, obj.field_bool("crossMatching"@)),
        inplay: set_if(s.inplay, obj.field_bool("inPlay"@)),
        runners_voidable: set_if(s.runners_voidable, obj.field_bool("runnersVoidable"@)),
    }
}

impl StatusFields {
    /// The status of a market not heard of yet: open, complete, cross matching.
    pub fn new() -> (r: StatusFields)
        ensures
            r@ == (StatusView {
                status: "OPEN"@,
                bet_delay: 0,
                bsp_reconciled: false,
                complete: true,
                cross_matching: true,
                inplay: false,
                runners_voidable: false,
            }),
    {
        StatusFields {
            status: "OPEN".to_owned(),
            bet_delay: 0,
            bsp_reconciled: false,
            complete: true,
            cross_matching: true,
            inplay: false,
            runners_voidable: false,
        }
    }

    /// Takes the values that `obj` carries for the status fields.
    pub fn apply(&mut self, obj: &JsonValue)
        ensures
            final(self)@ == status_after(old(self)@, *obj),
    {
        if let Some(s) = obj.get_str("status") {
            self.status = s.to_owned();
        }
        if let Some(v) = obj.get_i64("betDelay") {
            self.bet_delay = v as i32;
        }
        if let Some(v) = obj.get_bool("bspReconciled") {
            self.bsp_reconciled = v;
        }
        if let Some(v) = obj.get_bool("complete") {
            self.complete = v;
        }
        if let Some(v) = obj.get_bool("crossMatching") {
            self.cross_matching = v;
        }
        if let Some(v) = obj.get_bool("inPlay") {
            self.inplay = v;
        }
        if let Some(v) = obj.get_bool("runnersVoidable") {
            self.runners_voidable = v;
        }
        proof {
            assert(self@ =~= status_after(old(self)@, *obj));
        }
    }
}

/// The fields that only market definitions carry.
pub struct DefinitionFields {
    pub event_id: Option<String>,
    pub event_type_id: Option<String>,
    pub event_name: Option<String>,
    pub market_type: Option<String>,
    pub market_time: Option<String>,
    pub country_code: Option<String>,
    pub venue: Option<String>,
    pub race_type: Option<String>,
    pub name: Option<String>,
    pub bsp_market: bool,
    pub persistence_enabled: bool,
    pub each_way_divisor: Option<u64>,
    pub timezone: Option<String>,
    pub turn_in_play_enabled: bool,
    pub betting_type: Option<String>,
    pub discount_allowed: bool,
    pub market_base_rate: u64,
    pub regulators: Vec<String>,
    pub open_date: Option<String>,
    pub suspend_time: Option<String>,
    pub settled_time: Option<String>,
}

/// What the definition fields hold.
pub ghost struct DefFieldsView {
    pub event_id: Option<Seq<char>>,
    pub event_type_id: Option<Seq<char>>,
    pub event_name: Option<Seq<char>>,
    pub market_type: Option<Seq<char>>,
    pub market_time: Option<Seq<char>>,
    pub country_code: Option<Seq<char>>,
    pub venue: Option<Seq<char>>,
    pub race_type: Option<Seq<char>>,
    pub name: Option<Seq<char>>,
    pub bsp_market: bool,
    pub persistence_enabled: bool,
    pub each_way_divisor: Option<u64>,
    pub timezone: Option<Seq<char>>,
    pub turn_in_play_enabled: bool,
    pub betting_type: Option<Seq<char>>,
    pub discount_allowed: bool,
    pub market_base_rate: u64,
    pub regulators: Seq<Seq<char>>,
    pub open_date: Option<Seq<char>>,
    pub suspend_time: Option<Seq<char>>,
    pub settled_time: Option<Seq<char>>,
}

impl View for DefinitionFields {
    type V = DefFieldsView;

    open spec fn view(&self) -> DefFieldsView {
        DefFieldsView {
            event_id: opt_str_view(self.event_id),
            event_type_id: opt_str_view(self.event_type_id),
            event_name: opt_str_view(self.event_name),
            market_type: opt_str_view(self.market_type),
            market_time: opt_str_view(self.market_time),
            country_code: opt_str_view(self.country_code),
            venue: opt_str_view(self.venue),
            race_type: opt_str_view(self.race_type),
            name: opt_str_view(self.name),
            bsp_market: self.bsp_market,
            persistence_enabled: self.persistence_enabled,
            each_way_divisor: self.each_way_divisor,
            timezone: opt_str_view(self.timezone),
            turn_in_play_enabled: self.turn_in_play_enabled,
            betting_type: opt_str_view(self.betting_type),
            discount_allowed: self.discount_allowed,
            market_base_rate: self.market_base_rate,
            regulators: strings_view(self.regulators@),
            open_date: opt_str_view(self.open_date),
            suspend_time: opt_str_view(self.suspend_time),
            settled_time: opt_str_view(self.settled_time),
        }
    }
}

/// The definition fields after a market definition: each field the definition
/// carries with the expected type replaces the old one; `regulators` keeps the
/// strings of its array.
pub open spec fn def_fields_after(d: DefFieldsView, def: JsonValue) -> DefFieldsView {
    DefFieldsView {
        event_id: opt_set(d.event_id, def.field_str("eventId"@)),
        event_type_id: opt_set(d.event_type_id, def.field_str("eventTypeId"@)),
        event_name: opt_set(d.event_name, def.field_str("eventName"@)),
        market_type: opt_set(d.market_type, def.field_str("marketType"@)),
        market_time: opt_set(d.market_time, def.field_str("marketTime"@)),
        country_code: opt_set(d.country_code, def.field_str("countryCode"@)),
        venue: opt_set(d.venue, def.field_str("venue"@)),
        race_type: opt_set(d.race_type, def.field_str("raceType"@)),
        name: opt_set(d.name, def.field_str("name"@)),
        bsp_market: set_if(d.bsp_market, def.field_bool("bspMarket"@)),
        persistence_enabled: set_if(d.persistence_enabled, def.field_bool("persistenceEnabled"@)),
        each_way_divisor: match def.field_f64("eachWayDivisor"@) {
            Some(v) => Some(v),
            None => d.each_way_divisor,
        },
        timezone: opt_set(d.timezone, def.field_str("timezone"@)),
        turn_in_play_enabled: set_if(d.turn_in_play_enabled, def.field_bool("turnInPlayEnabled"@)),
        betting_type: opt_set(d.betting_type, def.field_str("bettingType"@)),
        discount_allowed: set_if(d.discount_allowed, def.field_bool("discountAllowed"@)),
        market_base_rate: set_if(d.market_base_rate, def.field_f64("marketBaseRate"@)),
        regulators: match def.field_array("regulators"@) {
            Some(arr) => str_elements(arr),
            None => d.regulators,
        },
        open_date: opt_set(d.open_date, def.field_str("openDate"@)),
        suspend_time: opt_set(d.suspend_time, def.field_str("suspendTime"@)),
        settled_time: opt_set(d.settled_time, def.field_str("settledTime"@)),
    }
}

/// The definition fields of a market not heard of yet.
pub open spec fn def_fields_initial() -> DefFieldsView {
    DefFieldsView {
        event_id: None,
        event_type_id: None,
        event_name: None,
        market_type: None,
        market_time: None,
        country_code: None,
        venue: None,
        race_type: None,
        name: None,
        bsp_market: false,
        persistence_enabled: true,
        each_way_divisor: None,
        timezone: None,
        turn_in_play_enabled: false,
        betting_type: None,
        discount_allowed: false,
        market_base_rate: 0,
        regulators: Seq::empty(),
        open_date: None,
        suspend_time: None,
        settled_time: None,
    }
}

impl DefinitionFields {
    /// No definition received: nothing known, persistence enabled.
    pub fn new() -> (r: DefinitionFields)
        ensures
            r@ == def_fields_initial(),
    {
        let r = DefinitionFields {
            event_id: None,
            event_type_id: None,
            event_name: None,
            market_type: None,
            market_time: None,
            country_code: None,
            venue: None,
            race_type: None,
            name: None,
            bsp_market: false,
            persistence_enabled: true,
            each_way_divisor: None,
            timezone: None,
            turn_in_play_enabled: false,
            betting_type: None,
            discount_allowed: false,
            market_base_rate: 0,
            regulators: Vec::new(),
            open_date: None,
            suspend_time: None,
            settled_time: None,
        };
        proof {
            assert(strings_view(r.regulators@) =~= Seq::<Seq<char>>::empty());
        }
        r
    }

    /// Takes the values that a market definition carries for these fields.
    pub fn apply(&mut self, def: &JsonValue)
        ensures
            final(self)@ == def_fields_after(old(self)@, *def),
    {
        self.apply_event(def);
        self.apply_names(def);
        self.apply_terms(def);
        proof {
            assert(self@ =~= def_fields_after(old(self)@, *def));
        }
    }

    /// The event and market identification fields.
    fn apply_event(&mut self, def: &JsonValue)
        ensures
            final(self)@ == (DefFieldsView {
                event_id: opt_set(old(self)@.event_id, def.field_str("eventId"@)),
                event_type_id: opt_set(old(self)@.event_type_id, def.field_str("eventTypeId"@)),
                event_name: opt_set(old(self)@.event_name, def.field_str("eventName"@)),
                market_type: opt_set(old(self)@.market_type, def.field_str("marketType"@)),
                market_time: opt_set(old(self)@.market_time, def.field_str("marketTime"@)),
                country_code: opt_set(old(self)@.country_code, def.field_str("countryCode"@)),
                venue: opt_set(old(self)@.venue, def.field_str("venue"@)),
                ..old(self)@
            }),
    {
        set_opt_string(&mut self.event_id, def.get_str("eventId"));
        set_opt_string(&mut self.event_type_id, def.get_str("eventTypeId"));
        set_opt_string(&mut self.event_name, def.get_str("eventName"));
        set_opt_string(&mut self.market_type, def.get_str("marketType"));
        set_opt_string(&mut self.market_time, def.get_str("marketTime"));
        set_opt_string(&mut self.country_code, def.get_str("countryCode"));
        set_opt_string(&mut self.venue, def.get_str("venue"));
    }

    /// The descriptive and timing fields.
    fn apply_names(&mut self, def: &JsonValue)
        ensures
            final(self)@ == (DefFieldsView {
                race_type: opt_set(old(self)@.race_type, def.field_str("raceType"@)),
                name: opt_set(old(self)@.name, def.field_str("name"@)),
                timezone: opt_set(old(self)@.timezone, def.field_str("timezone"@)),
                betting_type: opt_set(old(self)@.betting_type, def.field_str("bettingType"@)),
                open_date: opt_set(old(self)@.open_date, def.field_str("openDate"@)),
                suspend_time: opt_set(old(self)@.suspend_time, def.field_str("suspendTime"@)),
                settled_time: opt_set(old(self)@.settled_time, def.field_str("settledTime"@)),
                ..old(self)@
            }),
    {
        set_opt_string(&mut self.race_type, def.get_str("raceType"));
        set_opt_string(&mut self.name, def.get_str("name"));
        set_opt_string(&mut self.timezone, def.get_str("timezone"));
        set_opt_string(&mut self.betting_type, def.get_str("bettingType"));
        set_opt_string(&mut self.open_date, def.get_str("openDate"));
        set_opt_string(&mut self.suspend_time, def.get_str("suspendTime"));
        set_opt_string(&mut self.settled_time, def.get_str("settledTime"));
    }

    /// The betting terms and regulators.
    fn apply_terms(&mut self, def: &JsonValue)
        ensures
            final(self)@ == (DefFieldsView {
                bsp_market: set_if(old(self)@.bsp_market, def.field_bool("bspMarket"@)),
                persistence_enabled: set_if(
                    old(self)@.persistence_enabled,
                    def.field_bool("persistenceEnabled"@),
                ),
                each_way_divisor: match def.field_f64("eachWayDivisor"@) {
                    Some(v) => Some(v),
                    None => old(self)@.each_way_divisor,
                },
                turn_in_play_enabled: set_if(
                    old(self)@.turn_in_play_enabled,
                    def.field_bool("turnInPlayEnabled"@),
                ),
                discount_allowed: set_if(old(self)@.discount_allowed, def.field_bool("discountAllowed"@)),
                market_base_rate: set_if(old(self)@.market_base_rate, def.field_f64("marketBaseRate"@)),
                regulators: match def.field_array("regulators"@) {
                    Some(arr) => str_elements(arr),
                    None => old(self)@.regulators,
                },
                ..old(self)@
            }),
    {
        if let Some(v) = def.get_bool("bspMarket") {
            self.bsp_market = v;
        }
        if let Some(v) = def.get_bool("persistenceEnabled") {
            self.persistence_enabled = v;
        }
        if let Some(v) = def.get_f64("eachWayDivisor") {
            self.each_way_divisor = Some(v);
        }
        if let Some(v) = def.get_bool("turnInPlayEnabled") {
            self.turn_in_play_enabled = v;
        }
        if let Some(v) = def.get_bool("discountAllowed") {
            self.discount_allowed = v;
        }
        if let Some(v) = def.get_f64("marketBaseRate") {
            self.market_base_rate = v;
        }
        if let Some(arr) = def.get_array("regulators") {
            self.regulators = strings_from_json(arr);
        }
    }
}

/// A market definition as a market book shows it.  The times are the texts the
/// stream gave.
pub struct MarketDefinition {
    pub event_id: Option<String>,
    pub event_type_id: Option<String>,
    pub event_name: Option<String>,
    pub market_type: Option<String>,
    pub country_code: Option<String>,
    pub venue: Option<String>,
    pub race_type: Option<String>,
    pub name: Option<String>,
    pub timezone: Option<String>,
    pub betting_type: Option<String>,
    pub regulators: Vec<String>,
    pub runners: Vec<MarketDefinitionRunner>,
    pub market_time: Option<String>,
    pub open_date: Option<String>,
    pub suspend_time: Option<String>,
    pub settled_time: Option<String>,
    pub bsp_market: bool,
    pub persistence_enabled: bool,
    /// Bit pattern of the each-way divisor.
    pub each_way_divisor: Option<u64>,
    pub turn_in_play_enabled: bool,
    pub discount_allowed: bool,
    /// Bit pattern of the market base rate.
    pub market_base_rate: u64,
    pub bet_delay: i32,
    pub number_of_winners: i32,
    pub number_of_active_runners: i32,
    pub bsp_reconciled: bool,
    pub complete: bool,
    pub cross_matching: bool,
    pub in_play: bool,
    pub runners_voidable: bool,
    pub status: String,
    pub version: i64,
}

/// What a market definition holds: the definition fields, the status fields,
/// the counts, the version and the definition runners.
pub ghost struct DefinitionView {
    pub fields: DefFieldsView,
    pub status: StatusView,
    pub number_of_winners: i32,
    pub number_of_active_runners: i32,
    pub version: i64,
    pub runners: Seq<DefRunnerView>,
}

impl View for MarketDefinition {
    type V = DefinitionView;

    open spec fn view(&self) -> DefinitionView {
        DefinitionView {
            fields: DefFieldsView {
                event_id: opt_str_view(self.event_id),
                event_type_id: opt_str_view(self.event_type_id),
                event_name: opt_str_view(self.event_name),
                market_type: opt_str_view(self.market_type),
                market_time: opt_str_view(self.market_time),
                country_code: opt_str_view(self.country_code),
                venue: opt_str_view(self.venue),
                race_type: opt_str_view(self.race_type),
                name: opt_str_view(self.name),
                bsp_market: self.bsp_market,
                persistence_enabled: self.persistence_enabled,
                each_way_divisor: self.each_way_divisor,
                timezone: opt_str_view(self.timezone),
                turn_in_play_enabled: self.turn_in_play_enabled,
                betting_type: opt_str_view(self.betting_type),
                discount_allowed: self.discount_allowed,
                market_base_rate: self.market_base_rate,
                regulators: strings_view(self.regulators@),
                open_date: opt_str_view(self.open_date),
                suspend_time: opt_str_view(self.suspend_time),
                settled_time: opt_str_view(self.settled_time),
            },
            status: StatusView {
                status: self.status@,
                bet_delay: self.bet_delay,
                bsp_reconciled: self.bsp_reconciled,
                complete: self.complete,
                cross_matching: self.cross_matching,
                inplay: self.in_play,
                runners_voidable: self.runners_voidable,
            },
            number_of_winners: self.number_of_winners,
            number_of_active_runners: self.number_of_active_runners,
            version: self.version,
            runners: def_runners_view(self.runners@),
        }
    }
}

impl MarketDefinition {
    /// Assembles a market definition from the market's current state.
    pub fn assemble(
        fields: &DefinitionFields,
        status: &StatusFields,
        number_of_winners: i32,
        number_of_active_runners: i32,
        version: i64,
        runners: &Vec<MarketDefinitionRunner>,
    ) -> (r: MarketDefinition)
        ensures
            r@ == (DefinitionView {
                fields: fields@,
                status: status@,
                number_of_winners,
                number_of_active_runners,
                version,
                runners: def_runners_view(runners@),
            }),
    {
        let r = MarketDefinition {
            event_id: clone_opt_string(&fields.event_id),
            event_type_id: clone_opt_string(&fields.event_type_id),
            event_name: clone_opt_string(&fields.event_name),
            market_type: clone_opt_string(&fields.market_type),
            country_code: clone_opt_string(&fields.country_code),
            venue: clone_opt_string(&fields.venue),
            race_type: clone_opt_string(&fields.race_type),
            name: clone_opt_string(&fields.name),
            timezone: clone_opt_string(&fields.timezone),
            betting_type: clone_opt_string(&fields.betting_type),
            regulators: clone_strings(&fields.regulators),
            runners: clone_def_runners(runners),
            market_time: clone_opt_string(&fields.market_time),
            open_date: clone_opt_string(&fields.open_date),
            suspend_time: clone_opt_string(&fields.suspend_time),
            settled_time: clone_opt_string(&fields.settled_time),
            bsp_market: fields.bsp_market,
            persistence_enabled: fields.persistence_enabled,
            each_way_divisor: fields.each_way_divisor,
            turn_in_play_enabled: fields.turn_in_play_enabled,
            discount_allowed: fields.discount_allowed,
            market_base_rate: fields.market_base_rate,
            bet_delay: status.bet_delay,
            number_of_winners,
            number_of_active_runners,
            bsp_reconciled: status.bsp_reconciled,
            complete: status.complete,
            cross_matching: status.cross_matching,
            in_play: status.inplay,
            runners_voidable: status.runners_voidable,
            status: status.status.clone(),
            version,
        };
        proof {
            assert(r@.fields =~= fields@);
            assert(r@.status =~= status@);
        }
        r
    }

    /// A copy of the definition.
    pub fn duplicate(&self) -> (r: MarketDefinition)
        ensures
            r@ == self@,
    {
        let r = MarketDefinition {
            event_id: clone_opt_string(&self.event_id),
            event_type_id: clone_opt_string(&self.event_type_id),
            event_name: clone_opt_string(&self.event_name),
            market_type: clone_opt_string(&self.market_type),
            country_code: clone_opt_string(&self.country_code),
            venue: clone_opt_string(&self.venue),
            race_type: clone_opt_string(&self.race_type),
            name: clone_opt_string(&self.name),
            timezone: clone_opt_string(&self.timezone),
            betting_type: clone_opt_string(&self.betting_type),
            regulators: clone_strings(&self.regulators),
            runners: clone_def_runners(&self.runners),
            market_time: clone_opt_string(&self.market_time),
            open_date: clone_opt_string(&self.open_date),
            suspend_time: clone_opt_string(&self.suspend_time),
            settled_time: clone_opt_string(&self.settled_time),
            bsp_market: self.bsp_market,
            persistence_enabled: self.persistence_enabled,
            each_way_divisor: self.each_way_divisor,
            turn_in_play_enabled: self.turn_in_play_enabled,
            discount_allowed: self.discount_allowed,
            market_base_rate: self.market_base_rate,
            bet_delay: self.bet_delay,
            number_of_winners: self.number_of_winners,
            number_of_active_runners: self.number_of_active_runners,
            bsp_reconciled: self.bsp_reconciled,
            complete: self.complete,
            cross_matching: self.cross_matching,
            in_play: self.in_play,
            runners_voidable: self.runners_voidable,
            status: self.status.clone(),
            version: self.version,
        };
        proof {
            assert(r@.fields =~= self@.fields);
            assert(r@.status =~= self@.status);
        }
        r
    }
}

} // verus!
