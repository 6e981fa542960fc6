//! The items a salvage can turn up, and how each is made from the row that
//! the item tables hold for it.

use crate::error::NumeneraError;
use crate::utils::{d100, dice_outcome, roll_dice};
use vstd::prelude::*;

verus! {

/// A kind of crafting material.
#[derive(Debug)]
pub struct Iotum {
    pub name: String,
    pub level: u8,
    pub units_salvaged: u8,
    pub value: u8,
}

/// A curiosity without any use: an entry of a table in one of the books.
#[derive(Debug)]
pub struct Oddity {
    pub table: String,
    pub book: String,
    pub page_number: u16,
    pub entry: u8,
}

/// A device that works once.
#[derive(Debug)]
pub struct Cypher {
    pub name: String,
    pub level: u8,
    pub book: String,
    pub page_number: u16,
}

/// A device that keeps working.
#[derive(Debug)]
pub struct Artifact {
    pub name: String,
    pub level: u8,
    pub book: String,
    pub page_number: u16,
}

/// A row of the iotum table. `level` and `units_salvaged` are `None` where
/// the table holds nothing usable in that column.
#[derive(Debug)]
pub struct IotumRow {
    pub name: String,
    pub level: Option<u8>,
    pub units_salvaged: Option<String>,
    pub value: u8,
}

/// A row of the oddity table.
#[derive(Debug)]
pub struct OddityRow {
    pub table: String,
    pub book: String,
    pub page_number: u16,
}

/// A row of the cypher table or of the artifact table. `level` is a dice
/// expression.
#[derive(Debug)]
pub struct DeviceRow {
    pub name: String,
    pub level: String,
    pub book: String,
    pub page_number: u16,
}

/// What an iotum holds.
pub struct IotumView {
    pub name: Seq<char>,
    pub level: u8,
    pub units_salvaged: u8,
    pub value: u8,
}

/// What an oddity holds.
pub struct OddityView {
    pub table: Seq<char>,
    pub book: Seq<char>,
    pub page_number: u16,
    pub entry: u8,
}

/// What a cypher or an artifact holds.
pub struct DeviceView {
    pub name: Seq<char>,
    pub level: u8,
    pub book: Seq<char>,
    pub page_number: u16,
}

/// What a row of the iotum table holds.
pub struct IotumRowView {
    pub name: Seq<char>,
    pub level: Option<u8>,
    pub units_salvaged: Option<Seq<char>>,
    pub value: u8,
}

/// What a row of the oddity table holds.
pub struct OddityRowView {
    pub table: Seq<char>,
    pub book: Seq<char>,
    pub page_number: u16,
}

/// What a row of the cypher table or of the artifact table holds.
pub struct DeviceRowView {
    pub name: Seq<char>,
    pub level: Seq<char>,
    pub book: Seq<char>,
    pub page_number: u16,
}

impl View for Iotum {
    type V = IotumView;

    open spec fn view(&self) -> IotumView {
        IotumView {
            name: self.name@,
            level: self.level,
            units_salvaged: self.units_salvaged,
            value: self.value,
        }
    }
}

impl View for Oddity {
    type V = OddityView;

    open spec fn view(&self) -> OddityView {
        OddityView {
            table: self.table@,
            book: self.book@,
            page_number: self.page_number,
            entry: self.entry,
        }
    }
}

impl View for Cypher {
    type V = DeviceView;

    open spec fn view(&self) -> DeviceView {
        DeviceView {
            name: self.name@,
            level: self.level,
            book: self.book@,
            page_number: self.page_number,
        }
    }
}

impl View for Artifact {
    type V = DeviceView;

    open spec fn view(&self) -> DeviceView {
        DeviceView {
            name: self.name@,
            level: self.level,
            book: self.book@,
            page_number: self.page_number,
        }
    }
}

impl View for IotumRow {
    type V = IotumRowView;

    open spec fn view(&self) -> IotumRowView {
        IotumRowView {
            name: self.name@,
            level: self.level,
            units_salvaged: match self.units_salvaged {
                Some(units) => Some(units@),
                None => None,
            },
            value: self.value,
        }
    }
}

impl View for OddityRow {
    type V = OddityRowView;

    open spec fn view(&self) -> OddityRowView {
        OddityRowView { table: self.table@, book: self.book@, page_number: self.page_number }
    }
}

impl View for DeviceRow {
    type V = DeviceRowView;

    open spec fn view(&self) -> DeviceRowView {
        DeviceRowView {
            name: self.name@,
            level: self.level@,
            book: self.book@,
            page_number: self.page_number,
        }
    }
}

/// The name of the one iotum whose worth grows with the level of what is
/// salvaged.
pub open spec fn plan_seed() -> Seq<char> {
    "Plan seed"@
}

/// The view of a result: that of the item, or the error.
pub open spec fn viewed<T: View>(r: Result<T, NumeneraError>) -> Result<T::V, NumeneraError> {
    match r {
        Ok(item) => Ok(item@),
        Err(e) => Err(e),
    }
}

/// `r` is what making an iotum from `row`, for a salvage at `item_level`, may
/// give.
///
/// A plan seed takes level and units from `item_level` and is worth the
/// row's value times `item_level`; it fails where that does not fit in a
/// byte. Any other iotum keeps the row's level and value, and its units are
/// an outcome of the row's dice expression; it fails where the row lacks
/// level or units, or where the expression fails.
pub open spec fn iotum_outcome(
    row: IotumRowView,
    item_level: u8,
    r: Result<IotumView, NumeneraError>,
) -> bool {
    if row.name == plan_seed() {
        if row.value * item_level <= 255 {
            r == Ok::<IotumView, NumeneraError>(
                IotumView {
                    name: row.name,
                    level: item_level,
                    units_salvaged: item_level,
                    value: (row.value * item_level) as u8,
                },
            )
        } else {
            r == Err::<IotumView, NumeneraError>(NumeneraError::DataFormatError)
        }
    } else {
        match (row.level, row.units_salvaged) {
            (Some(level), Some(units)) => match r {
                Ok(iotum) => {
                    &&& iotum.name == row.name
                    &&& iotum.level == level
                    &&& iotum.value == row.value
                    &&& dice_outcome(units, Ok(iotum.units_salvaged))
                },
                Err(e) => dice_outcome(units, Err(e)),
            },
            _ => r == Err::<IotumView, NumeneraError>(NumeneraError::DataFormatError),
        }
    }
}

/// `oddity` is what making an oddity from `row` may give: the row's fields
/// and an entry from 1 to 100.
pub open spec fn oddity_outcome(row: OddityRowView, oddity: OddityView) -> bool {
    &&& oddity.table == row.table
    &&& oddity.book == row.book
    &&& oddity.page_number == row.page_number
    &&& 1 <= oddity.entry <= 100
}

/// `r` is what making a cypher or an artifact from `row` may give: the row's
/// fields with a level that is an outcome of the row's dice expression, or
/// the failure of that expression.
pub open spec fn device_outcome(row: DeviceRowView, r: Result<DeviceView, NumeneraError>) -> bool {
    match r {
        Ok(device) => {
            &&& device.name == row.name
            &&& device.book == row.book
            &&& device.page_number == row.page_number
            &&& dice_outcome(row.level, Ok(device.level))
        },
        Err(e) => dice_outcome(row.level, Err(e)),
    }
}

/// A plan seed made for a salvage at `item_level` has that level, as many
/// units, and the row's value times `item_level`, where that product fits in
/// a byte.
pub proof fn lemma_plan_seed(row: IotumRowView, item_level: u8, r: Result<IotumView, NumeneraError>)
    requires
        iotum_outcome(row, item_level, r),
        row.name == plan_seed(),
        row.value * item_level <= 255,
    ensures
        r is Ok,
        r->Ok_0.name == plan_seed(),
        r->Ok_0.level == item_level,
        r->Ok_0.units_salvaged == item_level,
        r->Ok_0.value == row.value * item_level,
{
}

fn is_plan_seed(name: &String) -> (b: bool)
    ensures
        b == (name@ == plan_seed()),
{
    let sentinel: String = "Plan seed".to_owned();
    *name == sentinel
}

/// Makes the iotum that `row` describes, for a salvage at `item_level`.
pub fn get_iotum(row: IotumRow, item_level: u8) -> (r: Result<Iotum, NumeneraError>)
    ensures
        iotum_outcome(row@, item_level, viewed(r)),
{
    if is_plan_seed(&row.name) {
        match row.value.checked_mul(item_level) {
            Some(value) => Ok(
                Iotum { name: row.name, level: item_level, units_salvaged: item_level, value },
            ),
            None => Err(NumeneraError::DataFormatError),
        }
    } else {
        match (row.level, row.units_salvaged) {
            (Some(level), Some(units)) => {
                match roll_dice(units.as_str()) {
                    Ok(units_salvaged) => Ok(
                        Iotum { name: row.name, level, units_salvaged, value: row.value },
                    ),
                    Err(e) => Err(e),
                }
            },
            _ => Err(NumeneraError::DataFormatError),
        }
    }
}

/// Makes the oddity that `row` describes, and draws its entry.
pub fn get_oddity(row: OddityRow) -> (oddity: Oddity)
    ensures
        oddity_outcome(row@, oddity@),
{
    let entry: u8 = d100();
    Oddity { table: row.table, book: row.book, page_number: row.page_number, entry }
}

/// Makes the cypher that `row` describes, and rolls its level.
pub fn get_cypher(row: DeviceRow) -> (r: Result<Cypher, NumeneraError>)
    ensures
        device_outcome(row@, viewed(r)),
{
    match roll_dice(row.level.as_str()) {
        Ok(level) => Ok(
            Cypher { name: row.name, level, book: row.book, page_number: row.page_number },
        ),
        Err(e) => Err(e),
    }
}

/// Makes the artifact that `row` describes, and rolls its level.
pub fn get_artifact(row: DeviceRow) -> (r: Result<Artifact, NumeneraError>)
    ensures
        device_outcome(row@, viewed(r)),
{
    match roll_dice(row.level.as_str()) {
        Ok(level) => Ok(
            Artifact { name: row.name, level, book: row.book, page_number: row.page_number },
        ),
        Err(e) => Err(e),
    }
}

} // verus!
