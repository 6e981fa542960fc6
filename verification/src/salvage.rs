//! The salvage engine: from the rolls of a salvage to what it yields.
//!
//! The engine decides; it does not read the item tables. A resolution starts
//! with `decide_random_salvage`, which either ends at once or names the row
//! it wants looked up. Each row handed to `Salvage::supply` moves the
//! resolution one step on, to the next lookup or to the finished result.

use crate::error::NumeneraError;
use crate::item::{
    device_outcome, get_artifact, get_cypher, get_iotum, get_oddity, iotum_outcome, oddity_outcome,
    plan_seed, viewed, Artifact, Cypher, DeviceRow, DeviceRowView, DeviceView, Iotum, IotumRow,
    IotumRowView, IotumView, Oddity, OddityRow, OddityRowView, OddityView,
};
use crate::utils::{coin_flip, d10, d100, d6};
use vstd::prelude::*;

verus! {

/// What a salvage yields: shins and parts always, and at most one reward.
#[derive(Debug)]
pub struct SalvageResult {
    pub shins: u8,
    pub parts: u8,
    pub oddity: Option<Oddity>,
    pub iotum: Option<Vec<Iotum>>,
    pub cyphers: Option<Vec<Cypher>>,
    pub artifact: Option<Artifact>,
}

/// What a salvage result holds.
pub struct SalvageResultView {
    pub shins: u8,
    pub parts: u8,
    pub oddity: Option<OddityView>,
    pub iotum: Option<Seq<IotumView>>,
    pub cyphers: Option<Seq<DeviceView>>,
    pub artifact: Option<DeviceView>,
}

/// The views of a list of items, in order.
pub open spec fn views<T: View>(items: Seq<T>) -> Seq<T::V> {
    Seq::new(items.len(), |i: int| items[i]@)
}

impl View for SalvageResult {
    type V = SalvageResultView;

    open spec fn view(&self) -> SalvageResultView {
        SalvageResultView {
            shins: self.shins,
            parts: self.parts,
            oddity: match self.oddity {
                Some(oddity) => Some(oddity@),
                None => None,
            },
            iotum: match self.iotum {
                Some(iotum) => Some(views(iotum@)),
                None => None,
            },
            cyphers: match self.cyphers {
                Some(cyphers) => Some(views(cyphers@)),
                None => None,
            },
            artifact: match self.artifact {
                Some(artifact) => Some(artifact@),
                None => None,
            },
        }
    }
}

/// The reward that the rolls of a salvage call for.
#[derive(Debug, Clone, Copy, PartialEq, Eq, Structural)]
pub enum Reward {
    /// Shins and parts only.
    Nothing,
    /// One oddity.
    Oddity,
    /// So many iotum.
    Iotum(u8),
    /// One to six cyphers, as a further die decides.
    Cyphers,
    /// One artifact.
    Artifact,
}

/// The salvage table. A roll of 3 gives an oddity; 4 gives one iotum or some
/// cyphers, 5 gives two iotum or an artifact, as the coin falls on 1 or on 2;
/// 6 gives three iotum. Every other pair gives nothing.
pub open spec fn reward_for(roll: u8, coin_flip: u8) -> Reward {
    if roll == 3 {
        Reward::Oddity
    } else if roll == 4 && coin_flip == 1 {
        Reward::Iotum(1)
    } else if roll == 4 && coin_flip == 2 {
        Reward::Cyphers
    } else if roll == 5 && coin_flip == 1 {
        Reward::Iotum(2)
    } else if roll == 5 && coin_flip == 2 {
        Reward::Artifact
    } else if roll == 6 {
        Reward::Iotum(3)
    } else {
        Reward::Nothing
    }
}

/// Looks the rolls up in the salvage table.
pub fn decide_reward(roll: u8, coin_flip: u8) -> (reward: Reward)
    ensures
        reward == reward_for(roll, coin_flip),
{
    match roll {
        3 => Reward::Oddity,
        4 => match coin_flip {
            1 => Reward::Iotum(1),
            2 => Reward::Cyphers,
            _ => Reward::Nothing,
        },
        5 => match coin_flip {
            1 => Reward::Iotum(2),
            2 => Reward::Artifact,
            _ => Reward::Nothing,
        },
        6 => Reward::Iotum(3),
        _ => Reward::Nothing,
    }
}

/// A row that the engine wants looked up in the item tables.
#[derive(Debug, Clone, Copy, PartialEq, Eq, Structural)]
pub enum Lookup {
    /// Any row of the oddity table.
    Oddity,
    /// The row of the iotum table whose range of rolls holds `roll`.
    Iotum { roll: u8 },
    /// Any row of the cypher table.
    Cypher,
    /// Any row of the artifact table.
    Artifact,
}

/// A row found in the item tables.
#[derive(Debug)]
pub enum Row {
    Oddity(OddityRow),
    Iotum(IotumRow),
    Cypher(DeviceRow),
    Artifact(DeviceRow),
}

/// What a row found in the item tables holds.
pub enum RowView {
    Oddity(OddityRowView),
    Iotum(IotumRowView),
    Cypher(DeviceRowView),
    Artifact(DeviceRowView),
}

impl View for Row {
    type V = RowView;

    open spec fn view(&self) -> RowView {
        match self {
            Row::Oddity(row) => RowView::Oddity(row@),
            Row::Iotum(row) => RowView::Iotum(row@),
            Row::Cypher(row) => RowView::Cypher(row@),
            Row::Artifact(row) => RowView::Artifact(row@),
        }
    }
}

/// The view of the answer to a lookup.
pub open spec fn answer(row: Option<Row>) -> Option<RowView> {
    match row {
        Some(row) => Some(row@),
        None => None,
    }
}

/// A resolution that still waits for rows.
#[derive(Debug)]
pub struct Salvage {
    roll: u8,
    shins: u8,
    coin_flip: u8,
    item_level: u8,
    wanted: u8,
    iotum: Vec<Iotum>,
    cyphers: Vec<Cypher>,
}

/// What a waiting resolution holds: the four inputs it began with, how many
/// items it wants in all, and the items made so far.
pub struct SalvageView {
    pub roll: u8,
    pub shins: u8,
    pub coin_flip: u8,
    pub item_level: u8,
    pub wanted: u8,
    pub iotum: Seq<IotumView>,
    pub cyphers: Seq<DeviceView>,
}

impl View for Salvage {
    type V = SalvageView;

    closed spec fn view(&self) -> SalvageView {
        SalvageView {
            roll: self.roll,
            shins: self.shins,
            coin_flip: self.coin_flip,
            item_level: self.item_level,
            wanted: self.wanted,
            iotum: views(self.iotum@),
            cyphers: views(self.cyphers@),
        }
    }
}

/// One step of a resolution: the next lookup, or the end.
#[derive(Debug)]
pub enum Step {
    /// The engine wants this row; hand it to `supply` on this state.
    Fetch(Salvage, Lookup),
    /// The salvage is resolved.
    Done(SalvageResult),
}

/// What a step holds.
pub enum StepView {
    Fetch(SalvageView, Lookup),
    Done(SalvageResultView),
}

impl View for Step {
    type V = StepView;

    open spec fn view(&self) -> StepView {
        match self {
            Step::Fetch(state, lookup) => StepView::Fetch(state@, *lookup),
            Step::Done(result) => StepView::Done(result@),
        }
    }
}

/// An iotum as a salvage at `item_level` makes it: a plan seed has that level
/// and as many units.
pub open spec fn at_level(iotum: IotumView, item_level: u8) -> bool {
    iotum.name == plan_seed() ==> iotum.level == item_level && iotum.units_salvaged == item_level
}

/// Every iotum of the list is as a salvage at `item_level` makes it.
pub open spec fn all_at_level(iotum: Seq<IotumView>, item_level: u8) -> bool {
    forall|i: int| 0 <= i < iotum.len() ==> at_level(#[trigger] iotum[i], item_level)
}

/// The result that holds shins and parts and no reward.
pub open spec fn bare(shins: u8, parts: u8) -> SalvageResultView {
    SalvageResultView { shins, parts, oddity: None, iotum: None, cyphers: None, artifact: None }
}

/// `lookup` is a request that serves `reward`.
pub open spec fn asks(lookup: Lookup, reward: Reward) -> bool {
    match reward {
        Reward::Nothing => false,
        Reward::Oddity => lookup == Lookup::Oddity,
        Reward::Iotum(_) => lookup matches Lookup::Iotum { roll } && 1 <= roll <= 100,
        Reward::Cyphers => lookup == Lookup::Cypher,
        Reward::Artifact => lookup == Lookup::Artifact,
    }
}

/// What holds of every waiting resolution: its rolls call for a reward, it
/// wants as many items as the reward names (one to six cyphers), it holds
/// fewer than it wants, and only items of the kind it collects.
pub open spec fn pending(state: SalvageView) -> bool {
    match reward_for(state.roll, state.coin_flip) {
        Reward::Nothing => false,
        Reward::Oddity | Reward::Artifact => {
            &&& state.wanted == 1
            &&& state.iotum.len() == 0
            &&& state.cyphers.len() == 0
        },
        Reward::Iotum(count) => {
            &&& state.wanted == count
            &&& state.iotum.len() < count
            &&& all_at_level(state.iotum, state.item_level)
            &&& state.cyphers.len() == 0
        },
        Reward::Cyphers => {
            &&& 1 <= state.wanted <= 6
            &&& state.cyphers.len() < state.wanted
            &&& state.iotum.len() == 0
        },
    }
}

/// `result` is what a salvage with these rolls at `item_level` may yield:
/// the shins rolled, as many parts as the level, and the reward that the
/// salvage table gives for the rolls, in its own slot and no other.
pub open spec fn is_outcome(
    result: SalvageResultView,
    roll: u8,
    shins: u8,
    coin_flip: u8,
    item_level: u8,
) -> bool {
    &&& result.shins == shins
    &&& result.parts == item_level
    &&& match reward_for(roll, coin_flip) {
        Reward::Nothing => result == bare(shins, item_level),
        Reward::Oddity => {
            &&& result.oddity is Some
            &&& result.iotum is None
            &&& result.cyphers is None
            &&& result.artifact is None
        },
        Reward::Iotum(count) => {
            &&& result.oddity is None
            &&& result.iotum matches Some(iotum)
            &&& iotum.len() == count
            &&& all_at_level(iotum, item_level)
            &&& result.cyphers is None
            &&& result.artifact is None
        },
        Reward::Cyphers => {
            &&& result.oddity is None
            &&& result.iotum is None
            &&& result.cyphers matches Some(cyphers)
            &&& 1 <= cyphers.len() <= 6
            &&& result.artifact is None
        },
        Reward::Artifact => {
            &&& result.oddity is None
            &&& result.iotum is None
            &&& result.cyphers is None
            &&& result.artifact is Some
        },
    }
}

/// `step` is a first step of a salvage with these rolls at `item_level`.
///
/// Where the table gives nothing the salvage ends at once with shins and
/// parts. Else it waits, with nothing collected, and asks for the first row.
pub open spec fn begins(
    step: StepView,
    roll: u8,
    shins: u8,
    coin_flip: u8,
    item_level: u8,
) -> bool {
    match reward_for(roll, coin_flip) {
        Reward::Nothing => step == StepView::Done(bare(shins, item_level)),
        reward => {
            &&& step matches StepView::Fetch(state, lookup)
            &&& state.roll == roll
            &&& state.shins == shins
            &&& state.coin_flip == coin_flip
            &&& state.item_level == item_level
            &&& state.iotum.len() == 0
            &&& state.cyphers.len() == 0
            &&& pending(state)
            &&& asks(lookup, reward)
        },
    }
}

/// `state` with these lists in place of its own.
pub open spec fn holding(
    state: SalvageView,
    iotum: Seq<IotumView>,
    cyphers: Seq<DeviceView>,
) -> SalvageView {
    SalvageView { iotum, cyphers, ..state }
}

/// `step` is what follows when the iotum `item` joins those that `state` has
/// collected: the end, with all of them in the result, once they are as many
/// as wanted; before that, the lookup of one more.
pub open spec fn keeps_iotum(state: SalvageView, item: IotumView, step: StepView) -> bool {
    let iotum = state.iotum.push(item);
    match step {
        StepView::Done(result) => {
            &&& iotum.len() >= state.wanted
            &&& result == SalvageResultView {
                iotum: Some(iotum),
                ..bare(state.shins, state.item_level)
            }
        },
        StepView::Fetch(next, lookup) => {
            &&& iotum.len() < state.wanted
            &&& next == holding(state, iotum, state.cyphers)
            &&& lookup matches Lookup::Iotum { roll }
            &&& 1 <= roll <= 100
        },
    }
}

/// `step` is what follows when the cypher `item` joins those that `state`
/// has collected: the end, with all of them in the result, once they are as
/// many as wanted; before that, the lookup of one more.
pub open spec fn keeps_cypher(state: SalvageView, item: DeviceView, step: StepView) -> bool {
    let cyphers = state.cyphers.push(item);
    match step {
        StepView::Done(result) => {
            &&& cyphers.len() >= state.wanted
            &&& result == SalvageResultView {
                cyphers: Some(cyphers),
                ..bare(state.shins, state.item_level)
            }
        },
        StepView::Fetch(next, lookup) => {
            &&& cyphers.len() < state.wanted
            &&& next == holding(state, state.iotum, cyphers)
            &&& lookup == Lookup::Cypher
        },
    }
}

/// `r` is what `state` may turn into when the tables answer `row`.
///
/// Without a row, or with a row of another table than the one that the
/// reward of `state` is taken from, the resolution fails on the tables. Else
/// the item is made from the row. Where that fails, so does the resolution,
/// with the item's error. Where it succeeds, an oddity or an artifact ends
/// the resolution as its one reward, and an iotum or a cypher joins those
/// collected.
pub open spec fn advances(
    state: SalvageView,
    row: Option<RowView>,
    r: Result<StepView, NumeneraError>,
) -> bool {
    let empty = bare(state.shins, state.item_level);
    match (reward_for(state.roll, state.coin_flip), row) {
        (Reward::Oddity, Some(RowView::Oddity(found))) => {
            &&& r matches Ok(StepView::Done(result))
            &&& result.oddity matches Some(oddity)
            &&& oddity_outcome(found, oddity)
            &&& result == SalvageResultView { oddity: Some(oddity), ..empty }
        },
        (Reward::Iotum(_), Some(RowView::Iotum(found))) => match r {
            Err(e) => iotum_outcome(found, state.item_level, Err(e)),
            Ok(step) => exists|item: IotumView|
                iotum_outcome(found, state.item_level, Ok(item)) && #[trigger] keeps_iotum(
                    state,
                    item,
                    step,
                ),
        },
        (Reward::Cyphers, Some(RowView::Cypher(found))) => match r {
            Err(e) => device_outcome(found, Err(e)),
            Ok(step) => exists|item: DeviceView|
                device_outcome(found, Ok(item)) && #[trigger] keeps_cypher(state, item, step),
        },
        (Reward::Artifact, Some(RowView::Artifact(found))) => match r {
            Err(e) => device_outcome(found, Err(e)),
            Ok(step) => {
                &&& step matches StepView::Done(result)
                &&& result.artifact matches Some(artifact)
                &&& device_outcome(found, Ok(artifact))
                &&& result == SalvageResultView { artifact: Some(artifact), ..empty }
            },
        },
        _ => r == Err::<StepView, NumeneraError>(NumeneraError::DatabaseError),
    }
}

/// An iotum made from a row for a salvage at `item_level` is as such a
/// salvage makes it.
pub proof fn lemma_made_at_level(row: IotumRowView, item_level: u8, iotum: IotumView)
    requires
        iotum_outcome(row, item_level, Ok(iotum)),
    ensures
        at_level(iotum, item_level),
{
}

/// `step` keeps the resolution `state` on its way: a state that follows is
/// again a waiting one, with the same four inputs and a request that serves
/// their reward; a result that ends it is an outcome of those inputs.
pub open spec fn on_course(state: SalvageView, step: StepView) -> bool {
    match step {
        StepView::Fetch(next, lookup) => {
            &&& pending(next)
            &&& next.roll == state.roll
            &&& next.shins == state.shins
            &&& next.coin_flip == state.coin_flip
            &&& next.item_level == state.item_level
            &&& asks(lookup, reward_for(state.roll, state.coin_flip))
        },
        StepView::Done(result) => is_outcome(
            result,
            state.roll,
            state.shins,
            state.coin_flip,
            state.item_level,
        ),
    }
}

/// Every step forward keeps a waiting resolution on its way.
pub proof fn lemma_step_keeps_course(state: SalvageView, row: Option<RowView>, step: StepView)
    requires
        pending(state),
        advances(state, row, Ok(step)),
    ensures
        on_course(state, step),
{
    match (reward_for(state.roll, state.coin_flip), row) {
        (Reward::Iotum(_), Some(RowView::Iotum(found))) => {
            let item = choose|item: IotumView|
                iotum_outcome(found, state.item_level, Ok(item)) && #[trigger] keeps_iotum(
                    state,
                    item,
                    step,
                );
            lemma_made_at_level(found, state.item_level, item);
        },
        _ => {},
    }
}

/// The rows `rows`, handed over one by one, take the waiting resolution
/// `state` to its end in `result`: each but the last leads to a further
/// lookup, and the last one ends the resolution.
pub open spec fn run_ends(
    state: SalvageView,
    rows: Seq<Option<RowView>>,
    result: SalvageResultView,
) -> bool
    decreases rows.len(),
{
    if rows.len() == 0 {
        false
    } else if rows.len() == 1 {
        advances(state, rows[0], Ok(StepView::Done(result)))
    } else {
        exists|next: SalvageView, lookup: Lookup|
            #[trigger] advances(state, rows[0], Ok(StepView::Fetch(next, lookup))) && run_ends(
                next,
                rows.drop_first(),
                result,
            )
    }
}

/// A salvage with these rolls at `item_level`, answered by `rows` one by one,
/// resolves to `result`.
pub open spec fn resolves(
    roll: u8,
    shins: u8,
    coin_flip: u8,
    item_level: u8,
    rows: Seq<Option<RowView>>,
    result: SalvageResultView,
) -> bool {
    exists|step: StepView| #[trigger]
        begins(step, roll, shins, coin_flip, item_level) && match step {
            StepView::Done(ended) => rows.len() == 0 && ended == result,
            StepView::Fetch(state, _) => run_ends(state, rows, result),
        }
}

/// The number of items that a result holds.
pub open spec fn items(result: SalvageResultView) -> nat {
    let oddities: nat = if result.oddity is Some { 1 } else { 0 };
    let iotum: nat = if result.iotum is Some { result.iotum->0.len() } else { 0 };
    let cyphers: nat = if result.cyphers is Some { result.cyphers->0.len() } else { 0 };
    let artifacts: nat = if result.artifact is Some { 1 } else { 0 };
    oddities + iotum + cyphers + artifacts
}

/// However the tables answer, a waiting resolution that reaches its end
/// ends in an outcome of its inputs, and has then taken one row for each
/// item that it had yet to make.
pub proof fn lemma_run_reaches_outcome(
    state: SalvageView,
    rows: Seq<Option<RowView>>,
    result: SalvageResultView,
)
    requires
        pending(state),
        run_ends(state, rows, result),
    ensures
        is_outcome(result, state.roll, state.shins, state.coin_flip, state.item_level),
        state.iotum.len() + state.cyphers.len() + rows.len() == items(result),
    decreases rows.len(),
{
    if rows.len() == 1 {
        lemma_step_keeps_course(state, rows[0], StepView::Done(result));
    } else {
        let (next, lookup) = choose|next: SalvageView, lookup: Lookup|
            #[trigger] advances(state, rows[0], Ok(StepView::Fetch(next, lookup))) && run_ends(
                next,
                rows.drop_first(),
                result,
            );
        lemma_step_keeps_course(state, rows[0], StepView::Fetch(next, lookup));
        lemma_run_reaches_outcome(next, rows.drop_first(), result);
    }
}

/// However the tables answer, a salvage that resolves yields an outcome of
/// its rolls, and has taken one row for each item of its result.
pub proof fn lemma_resolves_to_outcome(
    roll: u8,
    shins: u8,
    coin_flip: u8,
    item_level: u8,
    rows: Seq<Option<RowView>>,
    result: SalvageResultView,
)
    requires
        resolves(roll, shins, coin_flip, item_level, rows, result),
    ensures
        is_outcome(result, roll, shins, coin_flip, item_level),
        rows.len() == items(result),
{
    let step = choose|step: StepView| #[trigger]
        begins(step, roll, shins, coin_flip, item_level) && match step {
            StepView::Done(ended) => rows.len() == 0 && ended == result,
            StepView::Fetch(state, _) => run_ends(state, rows, result),
        };
    match step {
        StepView::Done(_) => {},
        StepView::Fetch(state, _) => {
            lemma_run_reaches_outcome(state, rows, result);
        },
    }
}

/// A salvage always yields the shins rolled and as many parts as the level
/// of what is salvaged, whatever the other rolls and whatever the tables
/// answer.
pub proof fn lemma_shins_and_parts(
    roll: u8,
    shins: u8,
    coin_flip: u8,
    item_level: u8,
    rows: Seq<Option<RowView>>,
    result: SalvageResultView,
)
    requires
        resolves(roll, shins, coin_flip, item_level, rows, result),
    ensures
        result.shins == shins,
        result.parts == item_level,
{
    lemma_resolves_to_outcome(roll, shins, coin_flip, item_level, rows, result);
}

/// A roll of 1 or 2 yields shins and parts and no reward, and looks nothing
/// up.
pub proof fn lemma_low_roll_yields_nothing(
    roll: u8,
    shins: u8,
    coin_flip: u8,
    item_level: u8,
    rows: Seq<Option<RowView>>,
    result: SalvageResultView,
)
    requires
        resolves(roll, shins, coin_flip, item_level, rows, result),
        roll == 1 || roll == 2,
    ensures
        rows.len() == 0,
        result.shins == shins,
        result.parts == item_level,
        result.oddity is None,
        result.iotum is None,
        result.cyphers is None,
        result.artifact is None,
{
    lemma_resolves_to_outcome(roll, shins, coin_flip, item_level, rows, result);
}

/// A roll of 3 yields one oddity and no other reward, however the coin falls.
pub proof fn lemma_three_yields_oddity(
    roll: u8,
    shins: u8,
    coin_flip: u8,
    item_level: u8,
    rows: Seq<Option<RowView>>,
    result: SalvageResultView,
)
    requires
        resolves(roll, shins, coin_flip, item_level, rows, result),
        roll == 3,
    ensures
        result.oddity is Some,
        result.iotum is None,
        result.cyphers is None,
        result.artifact is None,
{
    lemma_resolves_to_outcome(roll, shins, coin_flip, item_level, rows, result);
}

/// A roll of 4 yields one iotum where the coin falls on 1, and one to six
/// cyphers where it falls on 2; in either case no other reward.
pub proof fn lemma_four_yields_iotum_or_cyphers(
    roll: u8,
    shins: u8,
    coin_flip: u8,
    item_level: u8,
    rows: Seq<Option<RowView>>,
    result: SalvageResultView,
)
    requires
        resolves(roll, shins, coin_flip, item_level, rows, result),
        roll == 4,
        coin_flip == 1 || coin_flip == 2,
    ensures
        result.oddity is None,
        result.artifact is None,
        coin_flip == 1 ==> result.cyphers is None && result.iotum is Some
            && result.iotum->0.len() == 1,
        coin_flip == 2 ==> result.iotum is None && result.cyphers is Some && 1
            <= result.cyphers->0.len() <= 6,
{
    lemma_resolves_to_outcome(roll, shins, coin_flip, item_level, rows, result);
}

/// A roll of 5 yields two iotum where the coin falls on 1, and one artifact
/// where it falls on 2; in either case no other reward.
pub proof fn lemma_five_yields_iotum_or_artifact(
    roll: u8,
    shins: u8,
    coin_flip: u8,
    item_level: u8,
    rows: Seq<Option<RowView>>,
    result: SalvageResultView,
)
    requires
        resolves(roll, shins, coin_flip, item_level, rows, result),
        roll == 5,
        coin_flip == 1 || coin_flip == 2,
    ensures
        result.oddity is None,
        result.cyphers is None,
        coin_flip == 1 ==> result.artifact is None && result.iotum is Some
            && result.iotum->0.len() == 2,
        coin_flip == 2 ==> result.iotum is None && result.artifact is Some,
{
    lemma_resolves_to_outcome(roll, shins, coin_flip, item_level, rows, result);
}

/// A roll of 6 yields three iotum and no other reward, however the coin
/// falls.
pub proof fn lemma_six_yields_three_iotum(
    roll: u8,
    shins: u8,
    coin_flip: u8,
    item_level: u8,
    rows: Seq<Option<RowView>>,
    result: SalvageResultView,
)
    requires
        resolves(roll, shins, coin_flip, item_level, rows, result),
        roll == 6,
    ensures
        result.oddity is None,
        result.iotum is Some,
        result.iotum->0.len() == 3,
        result.cyphers is None,
        result.artifact is None,
{
    lemma_resolves_to_outcome(roll, shins, coin_flip, item_level, rows, result);
}

/// No salvage yields more than one kind of reward.
pub proof fn lemma_one_reward_at_most(
    roll: u8,
    shins: u8,
    coin_flip: u8,
    item_level: u8,
    rows: Seq<Option<RowView>>,
    result: SalvageResultView,
)
    requires
        resolves(roll, shins, coin_flip, item_level, rows, result),
    ensures
        result.oddity is Some ==> result.iotum is None && result.cyphers is None
            && result.artifact is None,
        result.iotum is Some ==> result.cyphers is None && result.artifact is None,
        result.cyphers is Some ==> result.artifact is None,
{
    lemma_resolves_to_outcome(roll, shins, coin_flip, item_level, rows, result);
}

/// Under a roll of 4 or 5, a coin that shows neither 1 nor 2 yields nothing.
pub proof fn lemma_stray_coin_yields_nothing(
    roll: u8,
    shins: u8,
    coin_flip: u8,
    item_level: u8,
    rows: Seq<Option<RowView>>,
    result: SalvageResultView,
)
    requires
        resolves(roll, shins, coin_flip, item_level, rows, result),
        roll == 4 || roll == 5,
        coin_flip != 1 && coin_flip != 2,
    ensures
        rows.len() == 0,
        result == bare(shins, item_level),
{
    lemma_resolves_to_outcome(roll, shins, coin_flip, item_level, rows, result);
}

impl Salvage {
    #[verifier::type_invariant]
    spec fn well_formed(&self) -> bool {
        pending(self@)
    }

    /// Adds an iotum to those collected.
    fn keep_iotum(self, item: Iotum) -> (step: Step)
        requires
            reward_for(self@.roll, self@.coin_flip) is Iotum,
            at_level(item@, self@.item_level),
        ensures
            keeps_iotum(self@, item@, step@),
    {
        proof {
            use_type_invariant(&self);
        }
        let ghost collected = self@.iotum.push(item@);
        let Salvage { roll, shins, coin_flip, item_level, wanted, mut iotum, cyphers } = self;
        iotum.push(item);
        assert(views(iotum@) == collected);
        if iotum.len() >= wanted as usize {
            Step::Done(
                SalvageResult {
                    shins,
                    parts: item_level,
                    oddity: None,
                    iotum: Some(iotum),
                    cyphers: None,
                    artifact: None,
                },
            )
        } else {
            let next = Salvage { roll, shins, coin_flip, item_level, wanted, iotum, cyphers };
            Step::Fetch(next, Lookup::Iotum { roll: d100() })
        }
    }

    /// Adds a cypher to those collected.
    fn keep_cypher(self, item: Cypher) -> (step: Step)
        requires
            reward_for(self@.roll, self@.coin_flip) is Cyphers,
        ensures
            keeps_cypher(self@, item@, step@),
    {
        proof {
            use_type_invariant(&self);
        }
        let ghost collected = self@.cyphers.push(item@);
        let Salvage { roll, shins, coin_flip, item_level, wanted, iotum, mut cyphers } = self;
        cyphers.push(item);
        assert(views(cyphers@) == collected);
        if cyphers.len() >= wanted as usize {
            Step::Done(
                SalvageResult {
                    shins,
                    parts: item_level,
                    oddity: None,
                    iotum: None,
                    cyphers: Some(cyphers),
                    artifact: None,
                },
            )
        } else {
            let next = Salvage { roll, shins, coin_flip, item_level, wanted, iotum, cyphers };
            Step::Fetch(next, Lookup::Cypher)
        }
    }

    /// Takes the answer of the tables to the last lookup, `None` where they
    /// held no row or could not be read, and moves the resolution one step
    /// on.
    pub fn supply(self, row: Option<Row>) -> (r: Result<Step, NumeneraError>)
        ensures
            advances(self@, answer(row), viewed(r)),
            r matches Ok(step) ==> on_course(self@, step@),
    {
        proof {
            use_type_invariant(&self);
        }
        let ghost before = self@;
        let ghost given = answer(row);
        let shins = self.shins;
        let parts = self.item_level;
        let r = match (decide_reward(self.roll, self.coin_flip), row) {
            (Reward::Oddity, Some(Row::Oddity(found))) => {
                let oddity = Some(get_oddity(found));
                Ok(
                    Step::Done(
                        SalvageResult {
                            shins,
                            parts,
                            oddity,
                            iotum: None,
                            cyphers: None,
                            artifact: None,
                        },
                    ),
                )
            },
            (Reward::Iotum(_), Some(Row::Iotum(found))) => {
                match get_iotum(found, self.item_level) {
                    Ok(item) => {
                        proof {
                            lemma_made_at_level(found@, self.item_level, item@);
                        }
                        Ok(self.keep_iotum(item))
                    },
                    Err(e) => Err(e),
                }
            },
            (Reward::Cyphers, Some(Row::Cypher(found))) => {
                match get_cypher(found) {
                    Ok(item) => Ok(self.keep_cypher(item)),
                    Err(e) => Err(e),
                }
            },
            (Reward::Artifact, Some(Row::Artifact(found))) => {
                match get_artifact(found) {
                    Ok(artifact) => Ok(
                        Step::Done(
                            SalvageResult {
                                shins,
                                parts,
                                oddity: None,
                                iotum: None,
                                cyphers: None,
                                artifact: Some(artifact),
                            },
                        ),
                    ),
                    Err(e) => Err(e),
                }
            },
            _ => Err(NumeneraError::DatabaseError),
        };
        proof {
            if let Ok(step) = viewed(r) {
                lemma_step_keeps_course(before, given, step);
            }
        }
        r
    }
}

/// Resolves a salvage whose dice have been thrown: `roll` on the salvage
/// table, `shins` found, `coin_flip` to choose between two rewards, for an
/// object of level `item_level`. Returns the first step of the resolution.
pub fn decide_random_salvage(roll: u8, shins: u8, coin_flip: u8, item_level: u8) -> (step: Step)
    ensures
        begins(step@, roll, shins, coin_flip, item_level),
        step@ matches StepView::Done(result) ==> is_outcome(
            result,
            roll,
            shins,
            coin_flip,
            item_level,
        ),
{
    let iotum: Vec<Iotum> = Vec::new();
    let cyphers: Vec<Cypher> = Vec::new();
    match decide_reward(roll, coin_flip) {
        Reward::Nothing => Step::Done(
            SalvageResult {
                shins,
                parts: item_level,
                oddity: None,
                iotum: None,
                cyphers: None,
                artifact: None,
            },
        ),
        Reward::Oddity => Step::Fetch(
            Salvage { roll, shins, coin_flip, item_level, wanted: 1, iotum, cyphers },
            Lookup::Oddity,
        ),
        Reward::Iotum(count) => Step::Fetch(
            Salvage { roll, shins, coin_flip, item_level, wanted: count, iotum, cyphers },
            Lookup::Iotum { roll: d100() },
        ),
        Reward::Cyphers => {
            let quantity: u8 = d6();
            Step::Fetch(
                Salvage { roll, shins, coin_flip, item_level, wanted: quantity, iotum, cyphers },
                Lookup::Cypher,
            )
        },
        Reward::Artifact => Step::Fetch(
            Salvage { roll, shins, coin_flip, item_level, wanted: 1, iotum, cyphers },
            Lookup::Artifact,
        ),
    }
}

/// Throws the dice of a salvage, a six-sided die for the table, a ten-sided
/// one for the shins and a coin, and resolves it for an object of level
/// `item_level`.
pub fn random_salvage(item_level: u8) -> (step: Step)
    ensures
        exists|roll: u8, shins: u8, coin_flip: u8|
            1 <= roll <= 6 && 1 <= shins <= 10 && 1 <= coin_flip <= 2 && #[trigger] begins(
                step@,
                roll,
                shins,
                coin_flip,
                item_level,
            ),
{
    let roll: u8 = d6();
    let shins: u8 = d10();
    let coin_flip: u8 = coin_flip();
    decide_random_salvage(roll, shins, coin_flip, item_level)
}

} // verus!
