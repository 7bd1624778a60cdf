//! Properties of the caches across updates.
use vstd::prelude::*;
use crate::floatbits::spec_is_nan;
use crate::json::JsonValue;
use crate::ladder::{
    lemma_ladder_unchanged_when_unreported, lemma_ladder_no_nan_price_from_json,
    lemma_listing_unique,
};
use crate::market::{
    MarketView, RunnerKey, market_update, market_after_book, market_initial, book_definition,
    current_definition, active_count, runners_fold, runner_key_of, runner_apply,
    definition_update, MarketBook, MarketCache, is_market_book, opt_definition_view, sorted_keys,
};
use crate::runner::{
    RunnerView, RunnerBook, runner_update, runner_definition_update, runner_after_book,
    runner_initial, is_book_of,
};
use crate::text::opt_str_view;

verus! {

/// A runner change that reports no change leaves the runner as it was, so a
/// book made of the runner before it is still the runner's book.
pub proof fn lemma_runner_unchanged_when_unreported(r: RunnerView, rc: JsonValue)
    ensures
        !runner_update(r, rc).1 ==> runner_update(r, rc).0 == r,
{
    if let Some(us) = rc.field_array("spb"@) {
        lemma_ladder_unchanged_when_unreported(r.lay_liability_taken, us);
    }
    if let Some(us) = rc.field_array("spl"@) {
        lemma_ladder_unchanged_when_unreported(r.back_stake_taken, us);
    }
    if let Some(us) = rc.field_array("atb"@) {
        lemma_ladder_unchanged_when_unreported(r.available_to_back, us);
    }
    if let Some(us) = rc.field_array("atl"@) {
        lemma_ladder_unchanged_when_unreported(r.available_to_lay, us);
    }
    if let Some(us) = rc.field_array("trd"@) {
        lemma_ladder_unchanged_when_unreported(r.traded, us);
    }
    if !runner_update(r, rc).1 {
        assert(runner_update(r, rc).0 =~= r);
    }
}

/// Made right after a book of a runner, the runner's next book is handed out
/// as the same book exactly when the one runner change (or definition entry)
/// in between reported no change, and the runner is then as it was.
pub proof fn lemma_book_reused_iff_unchanged(r: RunnerView, rc: JsonValue)
    ensures
        ({
            let (after, changed) = runner_update(runner_after_book(r), rc);
            &&& (after.book_stamp == Some(after.generation)) <==> !changed
            &&& !changed ==> after == runner_after_book(r)
        }),
        ({
            let (after, changed) = runner_definition_update(runner_after_book(r), rc);
            &&& (after.book_stamp == Some(after.generation)) <==> !changed
            &&& !changed ==> after == runner_after_book(r)
        }),
{
    lemma_runner_unchanged_when_unreported(runner_after_book(r), rc);
    let b = runner_after_book(r);
    if !runner_definition_update(b, rc).1 {
        assert(runner_definition_update(b, rc).0 =~= b);
    }
}

/// Two runner books show the same runner: they differ at most in their
/// reuse flags.
pub open spec fn same_runner_data(a: RunnerBook, b: RunnerBook) -> bool {
    &&& a.selection_id == b.selection_id
    &&& a.handicap == b.handicap
    &&& a.status@ == b.status@
    &&& a.adjustment_factor == b.adjustment_factor
    &&& a.last_price_traded == b.last_price_traded
    &&& a.total_matched == b.total_matched
    &&& opt_str_view(a.removal_date) == opt_str_view(b.removal_date)
    &&& a.ex.available_to_back@ == b.ex.available_to_back@
    &&& a.ex.available_to_lay@ == b.ex.available_to_lay@
    &&& a.ex.traded_volume@ == b.ex.traded_volume@
    &&& a.sp.near_price@ == b.sp.near_price@
    &&& a.sp.far_price@ == b.sp.far_price@
    &&& a.sp.actual_sp@ == b.sp.actual_sp@
    &&& a.sp.back_stake_taken@ == b.sp.back_stake_taken@
    &&& a.sp.lay_liability_taken@ == b.sp.lay_liability_taken@
}

/// Two books of a market made one right after the other, with no update in
/// between, show the same definition and the same runners, and the second
/// hands out the definition and every runner book again; a further book
/// changes the market no more.
pub proof fn lemma_second_book_reuses_all(c: MarketCache, b1: MarketBook, b2: MarketBook)
    requires
        c.wf(),
        is_market_book(b1, c@),
        is_market_book(b2, market_after_book(c@)),
    ensures
        b2.definition_reused,
        opt_definition_view(b2.market_definition) == opt_definition_view(b1.market_definition),
        b2.runners@.len() == b1.runners@.len(),
        forall|i: int|
            0 <= i < b2.runners@.len() ==> (#[trigger] b2.runners@[i]).reused && same_runner_data(
                b1.runners@[i],
                b2.runners@[i],
            ),
        market_after_book(market_after_book(c@)) == market_after_book(c@),
{
    let m = c@;
    let m1 = market_after_book(m);
    c.lemma_sorted_runner_keys();
    c.lemma_runner_keys();
    assert(m1.runners.dom() =~= m.runners.dom());
    assert(sorted_keys(m1.runners) == sorted_keys(m.runners));
    let keys = sorted_keys(m.runners);
    assert forall|i: int| 0 <= i < b2.runners@.len() implies (#[trigger] b2.runners@[i]).reused
        && same_runner_data(b1.runners@[i], b2.runners@[i]) by {
        assert(keys[i] == c.runner_keys()[i]);
        assert(m.runners.contains_key(keys[i]));
        let r = m.runners[keys[i]];
        let x = b1.runners@[i];
        let y = b2.runners@[i];
        assert(is_book_of(x, r));
        assert(is_book_of(y, m1.runners[keys[i]]));
        lemma_listing_unique(x.ex.available_to_back@, y.ex.available_to_back@, r.available_to_back, true);
        lemma_listing_unique(x.ex.available_to_lay@, y.ex.available_to_lay@, r.available_to_lay, false);
        lemma_listing_unique(x.ex.traded_volume@, y.ex.traded_volume@, r.traded, false);
        lemma_listing_unique(x.sp.back_stake_taken@, y.sp.back_stake_taken@, r.back_stake_taken, false);
        lemma_listing_unique(
            x.sp.lay_liability_taken@,
            y.sp.lay_liability_taken@,
            r.lay_liability_taken,
            true,
        );
    }
    assert(market_after_book(m1).runners =~= m1.runners);
    assert(market_after_book(m1) =~= m1);
}

/// One step of a market's replay: a market change published at a time, or a
/// book made of the market.
pub ghost enum MarketStep {
    Change(JsonValue, i64),
    Book,
}

/// The market after a replay of steps, in order.
pub open spec fn market_replay(m: MarketView, steps: Seq<MarketStep>) -> MarketView
    decreases steps.len(),
{
    if steps.len() == 0 {
        m
    } else {
        let prev = market_replay(m, steps.drop_last());
        match steps.last() {
            MarketStep::Change(mc, publish_time) => market_update(prev, mc, publish_time),
            MarketStep::Book => market_after_book(prev),
        }
    }
}

/// The step is a market change that carries a market definition.
pub open spec fn carries_definition(step: MarketStep) -> bool {
    match step {
        MarketStep::Change(mc, _) => mc.field("marketDefinition"@) is Some,
        MarketStep::Book => false,
    }
}

/// The number of steps that carry a market definition.
pub open spec fn definition_count(steps: Seq<MarketStep>) -> nat
    decreases steps.len(),
{
    if steps.len() == 0 {
        0
    } else {
        definition_count(steps.drop_last()) + if carries_definition(steps.last()) {
            1nat
        } else {
            0nat
        }
    }
}

/// Through a replay from a new market, the definition counter counts the
/// definitions received, a book remembers no definition only before the first
/// definition, and no definition is remembered before one arrives.
proof fn lemma_replay_definitions(market_id: Seq<char>, steps: Seq<MarketStep>)
    requires
        definition_count(steps) <= u64::MAX,
    ensures
        market_replay(market_initial(market_id), steps).def_generation == definition_count(steps),
        market_replay(market_initial(market_id), steps).cached_definition is None
            ==> market_replay(market_initial(market_id), steps).cached_def_generation == 0,
        definition_count(steps) == 0 ==> market_replay(
            market_initial(market_id),
            steps,
        ).cached_definition is None,
        definition_count(steps) > 0 <==> exists|i: int|
            0 <= i < steps.len() && carries_definition(#[trigger] steps[i]),
    decreases steps.len(),
{
    if steps.len() > 0 {
        let init = steps.drop_last();
        lemma_replay_definitions(market_id, init);
        let last = steps[steps.len() - 1];
        assert(last == steps.last());
        if definition_count(init) > 0 {
            let i = choose|i: int| 0 <= i < init.len() && carries_definition(#[trigger] init[i]);
            assert(steps[i] == init[i]);
        }
        if exists|i: int| 0 <= i < steps.len() && carries_definition(#[trigger] steps[i]) {
            let i = choose|i: int| 0 <= i < steps.len() && carries_definition(#[trigger] steps[i]);
            if i < steps.len() - 1 {
                assert(init[i] == steps[i]);
            }
        }
    }
}

/// A market book shows a market definition exactly when some market change
/// since the market started carried one, whatever books were made in between,
/// while the definition counter has not gone round.
pub proof fn lemma_definition_shown_iff_received(market_id: Seq<char>, steps: Seq<MarketStep>)
    requires
        definition_count(steps) <= u64::MAX,
    ensures
        book_definition(market_replay(market_initial(market_id), steps)) is Some <==> exists|i: int|
            0 <= i < steps.len() && carries_definition(#[trigger] steps[i]),
{
    lemma_replay_definitions(market_id, steps);
}

/// After a book has been made, a market change without a market definition
/// leaves the definition that the next book shows as it was.
pub proof fn lemma_definition_kept_without_new_definition(
    m: MarketView,
    mc: JsonValue,
    publish_time: i64,
)
    requires
        mc.field("marketDefinition"@) is None,
    ensures
        book_definition(market_update(market_after_book(m), mc, publish_time)) == book_definition(
            m,
        ),
{
}

/// After a book has been made, a market change that carries a market
/// definition makes the next book show a definition made from the market's
/// new state.
pub proof fn lemma_new_definition_shown(m: MarketView, mc: JsonValue, publish_time: i64)
    requires
        mc.field("marketDefinition"@) is Some,
    ensures
        book_definition(market_update(market_after_book(m), mc, publish_time)) == Some(
            current_definition(market_update(market_after_book(m), mc, publish_time)),
        ),
{
}

/// An image that carries neither a definition nor runner changes leaves the
/// market without runners.
pub proof fn lemma_image_clears_runners(m: MarketView, mc: JsonValue, publish_time: i64)
    requires
        mc.field_bool("img"@) == Some(true),
        mc.field("marketDefinition"@) is None,
        mc.field_array("rc"@) is None,
    ensures
        market_update(m, mc, publish_time).runners == Map::<RunnerKey, RunnerView>::empty(),
        market_update(m, mc, publish_time).number_of_runners == 0,
        market_update(m, mc, publish_time).number_of_active_runners == 0,
{
    let e = Map::<RunnerKey, RunnerView>::empty();
    assert(e.dom() =~= Set::<RunnerKey>::empty());
    assert(e.dom().filter(|k: RunnerKey| e[k].status == "ACTIVE"@) =~= Set::<RunnerKey>::empty());
}

/// No ladder of the runner holds a level at a NaN price.
pub open spec fn ladders_nan_free(r: RunnerView) -> bool {
    &&& forall|p: u64| r.available_to_back.contains_key(p) ==> !spec_is_nan(p)
    &&& forall|p: u64| r.available_to_lay.contains_key(p) ==> !spec_is_nan(p)
    &&& forall|p: u64| r.traded.contains_key(p) ==> !spec_is_nan(p)
    &&& forall|p: u64| r.back_stake_taken.contains_key(p) ==> !spec_is_nan(p)
    &&& forall|p: u64| r.lay_liability_taken.contains_key(p) ==> !spec_is_nan(p)
}

/// No ladder of any runner of the market holds a level at a NaN price.
pub open spec fn market_ladders_nan_free(m: MarketView) -> bool {
    forall|k: RunnerKey| #[trigger] m.runners.contains_key(k) ==> ladders_nan_free(m.runners[k])
}

/// A runner change (or definition entry) read from JSON text puts no NaN
/// price into a runner's ladders.
pub proof fn lemma_runner_ladders_nan_free(r: RunnerView, rc: JsonValue)
    requires
        ladders_nan_free(r),
        rc.nan_free(),
    ensures
        ladders_nan_free(runner_update(r, rc).0),
        ladders_nan_free(runner_definition_update(r, rc).0),
{
    rc.lemma_nan_free_parts("atb"@);
    rc.lemma_nan_free_parts("atl"@);
    rc.lemma_nan_free_parts("trd"@);
    rc.lemma_nan_free_parts("spb"@);
    rc.lemma_nan_free_parts("spl"@);
    if let Some(us) = rc.field_array("atb"@) {
        lemma_ladder_no_nan_price_from_json(r.available_to_back, us);
    }
    if let Some(us) = rc.field_array("atl"@) {
        lemma_ladder_no_nan_price_from_json(r.available_to_lay, us);
    }
    if let Some(us) = rc.field_array("trd"@) {
        lemma_ladder_no_nan_price_from_json(r.traded, us);
    }
    if let Some(us) = rc.field_array("spb"@) {
        lemma_ladder_no_nan_price_from_json(r.lay_liability_taken, us);
    }
    if let Some(us) = rc.field_array("spl"@) {
        lemma_ladder_no_nan_price_from_json(r.back_stake_taken, us);
    }
}

/// Entries read from JSON text, applied to runners without NaN prices, leave
/// none.
proof fn lemma_runners_fold_nan_free(
    rs: Map<RunnerKey, RunnerView>,
    rcs: Seq<JsonValue>,
    from_definition: bool,
)
    requires
        forall|k: RunnerKey| #[trigger] rs.contains_key(k) ==> ladders_nan_free(rs[k]),
        forall|i: int| 0 <= i < rcs.len() ==> (#[trigger] rcs[i]).nan_free(),
    ensures
        forall|k: RunnerKey|
            #[trigger] runners_fold(rs, rcs, from_definition).contains_key(k) ==> ladders_nan_free(
                runners_fold(rs, rcs, from_definition)[k],
            ),
    decreases rcs.len(),
{
    if rcs.len() > 0 {
        let init = rcs.drop_last();
        assert forall|i: int| 0 <= i < init.len() implies (#[trigger] init[i]).nan_free() by {
            assert(init[i] == rcs[i]);
        }
        lemma_runners_fold_nan_free(rs, init, from_definition);
        let prev = runners_fold(rs, init, from_definition);
        let rc = rcs[rcs.len() - 1];
        assert(rc == rcs.last());
        if let Some(k) = runner_key_of(rc) {
            let base = if prev.contains_key(k) {
                prev[k]
            } else {
                runner_initial(k.0, rc.field_f64("hc"@).unwrap_or(0))
            };
            lemma_runner_ladders_nan_free(base, rc);
            assert(ladders_nan_free(runner_apply(base, rc, from_definition)));
        }
    }
}

/// Market changes read from JSON text never put a NaN price into any ladder
/// of the market, and making a book changes no ladder: a market that starts
/// without runners never holds a level at a NaN price.
pub proof fn lemma_market_ladders_nan_free(m: MarketView, mc: JsonValue, publish_time: i64)
    requires
        market_ladders_nan_free(m),
        mc.nan_free(),
    ensures
        market_ladders_nan_free(market_update(m, mc, publish_time)),
        market_ladders_nan_free(market_after_book(m)),
        market_ladders_nan_free(market_initial(m.market_id)),
{
    let m1 = MarketView {
        publish_time,
        runners: if mc.field_bool("img"@) == Some(true) {
            Map::empty()
        } else {
            m.runners
        },
        ..m
    };
    assert(market_ladders_nan_free(m1));
    mc.lemma_nan_free_parts("marketDefinition"@);
    mc.lemma_nan_free_parts("rc"@);
    let m2 = match mc.field("marketDefinition"@) {
        Some(def) => {
            def.lemma_nan_free_parts("runners"@);
            if let Some(rs) = def.field_array("runners"@) {
                lemma_runners_fold_nan_free(m1.runners, rs, true);
            }
            definition_update(m1, def)
        },
        None => m1,
    };
    assert(market_ladders_nan_free(m2));
    if let Some(rcs) = mc.field_array("rc"@) {
        lemma_runners_fold_nan_free(m2.runners, rcs, false);
    }
    let mb = market_after_book(m);
    assert forall|k: RunnerKey| #[trigger] mb.runners.contains_key(k) implies ladders_nan_free(
        mb.runners[k],
    ) by {
        assert(m.runners.contains_key(k));
    }
}

/// There are never more active runners than runners.
pub proof fn lemma_active_at_most_all(rs: Map<RunnerKey, RunnerView>)
    requires
        rs.dom().finite(),
    ensures
        active_count(rs) <= rs.dom().len(),
{
    rs.dom().lemma_len_filter(|k: RunnerKey| rs[k].status == "ACTIVE"@);
}

} // verus!
