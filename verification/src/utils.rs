//! Dice: the fixed dice of the salvage tables and the evaluation of dice
//! expressions.

use crate::error::NumeneraError;
use crate::notation::{notation_of, parse_notation, Notation};
use rand::distributions::{Distribution, Uniform};
use vstd::prelude::*;

verus! {

/// Draws a number from `low` to `high`, both included.
///
/// Trusted. The body builds `rand`'s `Uniform::new_inclusive(low, high)` and
/// samples it once with the generator that `rand::thread_rng()` hands out.
/// The contract claims only that the number drawn lies within the two bounds;
/// it says nothing of which number comes, and two calls may differ.
/// `new_inclusive` panics where `low > high`, which `requires` rules out.
#[verifier::external_body]
fn roll(low: u8, high: u8) -> (drawn: u8)
    requires
        low <= high,
    ensures
        low <= drawn <= high,
{
    Uniform::new_inclusive(low, high).sample(&mut rand::thread_rng())
}

/// Flips a coin: 1 or 2.
pub fn coin_flip() -> (side: u8)
    ensures
        1 <= side <= 2,
{
    roll(1, 2)
}

/// Throws a six-sided die.
pub fn d6() -> (face: u8)
    ensures
        1 <= face <= 6,
{
    roll(1, 6)
}

/// Throws a ten-sided die.
pub fn d10() -> (face: u8)
    ensures
        1 <= face <= 10,
{
    roll(1, 10)
}

/// Throws a hundred-sided die.
pub fn d100() -> (face: u8)
    ensures
        1 <= face <= 100,
{
    roll(1, 100)
}

/// `rolls` is what `count` dice of `sides` sides each may show.
pub open spec fn valid_rolls(rolls: Seq<u8>, count: u8, sides: u8) -> bool {
    &&& rolls.len() == count
    &&& forall|i: int| 0 <= i < rolls.len() ==> 1 <= #[trigger] rolls[i] <= sides
}

/// The sum of the dice.
pub open spec fn sum(rolls: Seq<u8>) -> nat
    decreases rolls.len(),
{
    if rolls.len() == 0 {
        0
    } else {
        sum(rolls.drop_last()) + rolls.last() as nat
    }
}

/// The value of a throw: the sum of the dice and the modifier, or a format
/// error where that does not fit in a byte.
pub open spec fn total(rolls: Seq<u8>, modifier: u8) -> Result<u8, NumeneraError> {
    if sum(rolls) + modifier <= 255 {
        Ok((sum(rolls) + modifier) as u8)
    } else {
        Err(NumeneraError::DataFormatError)
    }
}

/// `r` is a value that evaluating `notation` may give. A bare number gives
/// itself. Dice give the value of some throw; where there are dice to throw
/// and they have no sides, there is no throw, and the evaluation fails.
pub open spec fn notation_outcome(notation: Notation, r: Result<u8, NumeneraError>) -> bool {
    match notation {
        Notation::Fixed(value) => r == Ok::<u8, NumeneraError>(value),
        Notation::Dice { count, sides, modifier } => if count > 0 && sides == 0 {
            r == Err::<u8, NumeneraError>(NumeneraError::DataFormatError)
        } else {
            exists|rolls: Seq<u8>| #[trigger]
                valid_rolls(rolls, count, sides) && r == total(rolls, modifier)
        },
    }
}

/// `r` is a value that evaluating the expression `text` may give: a format
/// error where `text` is not well formed, else an outcome of what it says.
pub open spec fn dice_outcome(text: Seq<char>, r: Result<u8, NumeneraError>) -> bool {
    match notation_of(text) {
        None => r == Err::<u8, NumeneraError>(NumeneraError::DataFormatError),
        Some(notation) => notation_outcome(notation, r),
    }
}

/// Dice that show between one and `sides` each sum to between their number
/// and `sides` times their number.
pub proof fn lemma_sum_bounds(rolls: Seq<u8>, sides: u8)
    requires
        forall|i: int| 0 <= i < rolls.len() ==> 1 <= #[trigger] rolls[i] <= sides,
    ensures
        rolls.len() <= sum(rolls) <= rolls.len() * sides,
    decreases rolls.len(),
{
    if rolls.len() > 0 {
        let rest = rolls.drop_last();
        assert forall|i: int| 0 <= i < rest.len() implies 1 <= #[trigger] rest[i] <= sides by {
            assert(rest[i] == rolls[i]);
        }
        lemma_sum_bounds(rest, sides);
        assert(rolls.len() * sides == rest.len() * sides + sides) by (nonlinear_arith)
            requires
                rolls.len() == rest.len() + 1,
        ;
    }
}

/// The value of dice that can be thrown lies between `count + modifier` and
/// `count * sides + modifier`. It is owed where the upper bound fits in a
/// byte, and the evaluation fails where even the lower bound does not.
pub proof fn lemma_outcome_bounds(notation: Notation, r: Result<u8, NumeneraError>)
    requires
        notation_outcome(notation, r),
        notation matches Notation::Dice { count, sides, .. } && (count == 0 || sides >= 1),
    ensures
        notation matches Notation::Dice { count, sides, modifier } && ({
            &&& r matches Ok(value) ==> count + modifier <= value <= count * sides + modifier
            &&& r matches Err(e) ==> e == NumeneraError::DataFormatError
            &&& count * sides + modifier <= 255 ==> r is Ok
            &&& count + modifier > 255 ==> r is Err
        }),
{
    match notation {
        Notation::Dice { count, sides, modifier } => {
            let rolls = choose|rolls: Seq<u8>| #[trigger]
                valid_rolls(rolls, count, sides) && r == total(rolls, modifier);
            lemma_sum_bounds(rolls, sides);
        },
        Notation::Fixed(_) => {},
    }
}

/// A bare number always evaluates to itself.
pub proof fn lemma_fixed_outcome(value: u8, r: Result<u8, NumeneraError>)
    requires
        notation_outcome(Notation::Fixed(value), r),
    ensures
        r == Ok::<u8, NumeneraError>(value),
{
}

/// Adds up a throw.
pub fn dice_total(rolls: &Vec<u8>, modifier: u8) -> (r: Result<u8, NumeneraError>)
    ensures
        r == total(rolls@, modifier),
{
    let mut acc: u32 = 0;
    let mut fits: bool = true;
    let mut i: usize = 0;
    assert(rolls@.subrange(0, 0).len() == 0);
    while i < rolls.len()
        invariant
            i <= rolls.len(),
            fits ==> acc == sum(rolls@.subrange(0, i as int)) && acc <= 255,
            !fits ==> sum(rolls@.subrange(0, i as int)) > 255,
        decreases rolls.len() - i,
    {
        proof {
            let longer = rolls@.subrange(0, i + 1);
            assert(longer.drop_last() == rolls@.subrange(0, i as int));
            assert(longer.last() == rolls@[i as int]);
        }
        if fits {
            acc = acc + rolls[i] as u32;
            if acc > 255 {
                fits = false;
            }
        }
        i += 1;
    }
    assert(rolls@.subrange(0, i as int) == rolls@);
    if fits && acc + modifier as u32 <= 255 {
        Ok((acc + modifier as u32) as u8)
    } else {
        Err(NumeneraError::DataFormatError)
    }
}

/// Throws `count` dice of `sides` sides each.
fn throw_dice(count: u8, sides: u8) -> (rolls: Vec<u8>)
    requires
        count == 0 || sides >= 1,
    ensures
        valid_rolls(rolls@, count, sides),
{
    let mut rolls: Vec<u8> = Vec::new();
    let mut thrown: u8 = 0;
    while thrown < count
        invariant
            thrown <= count,
            count == 0 || sides >= 1,
            valid_rolls(rolls@, thrown, sides),
        decreases count - thrown,
    {
        let face: u8 = roll(1, sides);
        rolls.push(face);
        thrown += 1;
    }
    rolls
}

/// Evaluates a parsed dice expression, throwing its dice.
pub fn roll_notation(notation: Notation) -> (r: Result<u8, NumeneraError>)
    ensures
        notation_outcome(notation, r),
{
    match notation {
        Notation::Fixed(value) => Ok(value),
        Notation::Dice { count, sides, modifier } => {
            if count > 0 && sides == 0 {
                Err(NumeneraError::DataFormatError)
            } else {
                let rolls = throw_dice(count, sides);
                dice_total(&rolls, modifier)
            }
        },
    }
}

/// Evaluates a dice expression such as `3d6`, `2d4+1` or `5`.
pub fn roll_dice(dice_str: &str) -> (r: Result<u8, NumeneraError>)
    ensures
        dice_outcome(dice_str@, r),
{
    match parse_notation(dice_str) {
        None => Err(NumeneraError::DataFormatError),
        Some(notation) => roll_notation(notation),
    }
}

} // verus!
