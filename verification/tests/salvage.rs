use numenera_helper::error::NumeneraError;
use numenera_helper::item::{DeviceRow, IotumRow, OddityRow};
use numenera_helper::salvage::{
    decide_random_salvage, decide_reward, random_salvage, Lookup, Reward, Row, SalvageResult, Step,
};

fn oddity_row() -> OddityRow {
    OddityRow { table: "Oddities".to_string(), book: "Discovery".to_string(), page_number: 305 }
}

fn iotum_row() -> IotumRow {
    IotumRow {
        name: "Io".to_string(),
        level: Some(1),
        units_salvaged: Some("1d6".to_string()),
        value: 1,
    }
}

fn cypher_row() -> DeviceRow {
    DeviceRow {
        name: "Detonation".to_string(),
        level: "1d6 + 2".to_string(),
        book: "Discovery".to_string(),
        page_number: 277,
    }
}

fn artifact_row() -> DeviceRow {
    DeviceRow {
        name: "Amber casement".to_string(),
        level: "1d6+4".to_string(),
        book: "Discovery".to_string(),
        page_number: 292,
    }
}

/// Item tables that hold one row each.
fn fetch(lookup: Lookup) -> Option<Row> {
    match lookup {
        Lookup::Oddity => Some(Row::Oddity(oddity_row())),
        Lookup::Iotum { roll } => {
            assert!(1 <= roll && roll <= 100);
            Some(Row::Iotum(iotum_row()))
        }
        Lookup::Cypher => Some(Row::Cypher(cypher_row())),
        Lookup::Artifact => Some(Row::Artifact(artifact_row())),
    }
}

/// Runs a resolution to its end against `tables`.
fn resolve_with(
    tables: fn(Lookup) -> Option<Row>,
    roll: u8,
    shins: u8,
    coin_flip: u8,
    item_level: u8,
) -> Result<SalvageResult, NumeneraError> {
    let mut step = decide_random_salvage(roll, shins, coin_flip, item_level);
    let mut lookups = 0;
    loop {
        match step {
            Step::Done(result) => return Ok(result),
            Step::Fetch(state, lookup) => {
                lookups += 1;
                assert!(lookups <= 6);
                step = state.supply(tables(lookup))?;
            }
        }
    }
}

fn resolve(roll: u8, shins: u8, coin_flip: u8, item_level: u8) -> Result<SalvageResult, NumeneraError> {
    resolve_with(fetch, roll, shins, coin_flip, item_level)
}

#[test]
fn test_random_salvage_only_parts() {
    // A roll of 1 and 2 with the same inputs should produce the same
    // result, i.e. only shins and parts with no other perks.
    let shins = 10;
    let roll = 1;
    let item_level = 5;
    let coin_flip = 1;
    let res = resolve(roll, shins, coin_flip, item_level).unwrap();
    assert!(res.shins == 10);
    assert!(res.parts == 5);
    assert!(res.oddity.is_none());
    assert!(res.iotum.is_none());
    assert!(res.cyphers.is_none());
    assert!(res.artifact.is_none());

    let roll = 2;
    let res = resolve(roll, shins, coin_flip, item_level).unwrap();
    assert!(res.shins == shins);
    assert!(res.parts == item_level);
    assert!(res.oddity.is_none());
    assert!(res.iotum.is_none());
    assert!(res.cyphers.is_none());
    assert!(res.artifact.is_none());
}

#[test]
fn test_random_salvage_oddity() {
    // A roll of 3 produces shins, parts, and a single oddity.
    let shins = 1;
    let roll = 3;
    let item_level = 7;
    let coin_flip = 1;
    let res = resolve(roll, shins, coin_flip, item_level).unwrap();
    assert!(res.shins == shins);
    assert!(res.parts == item_level);
    assert!(res.oddity.is_some());
    assert!(res.iotum.is_none());
    assert!(res.cyphers.is_none());
    assert!(res.artifact.is_none());
}

#[test]
fn test_random_salvage_one_iotum() {
    // A roll of 4 can either result in an iotum or cyphers which is
    // decided by coin flip. In this case, we set the coin flip to give
    // an iotum.
    let shins = 2;
    let roll = 4;
    let item_level = 1;
    let coin_flip = 1;
    let res = resolve(roll, shins, coin_flip, item_level).unwrap();
    assert!(res.shins == shins);
    assert!(res.parts == item_level);
    assert!(res.oddity.is_none());
    assert!(res.iotum.is_some() && res.iotum.unwrap().len() == 1);
    assert!(res.cyphers.is_none());
    assert!(res.artifact.is_none());
}

#[test]
fn test_random_salvage_cyphers() {
    // A roll of 4 can either result in an iotum or cyphers which is
    // decided by coin flip. In this case, we set the coin flip to give
    // 1d6 cyphers.
    let shins = 2;
    let roll = 4;
    let item_level = 2;
    let coin_flip = 2;
    let res = resolve(roll, shins, coin_flip, item_level).unwrap();
    assert!(res.shins == shins);
    assert!(res.parts == item_level);
    assert!(res.oddity.is_none());
    assert!(res.iotum.is_none());
    assert!(res.cyphers.is_some());
    let cyphers = res.cyphers.unwrap();
    assert!(cyphers.len() >= 1);
    assert!(cyphers.len() <= 6);
    assert!(res.artifact.is_none());
}

#[test]
fn test_random_salvage_two_iotum() {
    // A roll of 5 can either result in either two iotum or one artifact.
    // In this case, we set the coin flip to give two iotum.
    let shins = 9;
    let roll = 5;
    let item_level = 6;
    let coin_flip = 1;
    let res = resolve(roll, shins, coin_flip, item_level).unwrap();
    assert!(res.shins == shins);
    assert!(res.parts == item_level);
    assert!(res.oddity.is_none());
    assert!(res.iotum.is_some() && res.iotum.unwrap().len() == 2);
    assert!(res.cyphers.is_none());
    assert!(res.artifact.is_none());
}

#[test]
fn test_random_salvage_artifact() {
    // A roll of 5 can either result in either two iotum or one artifact.
    // In this case, we set the coin flip to give one artifact.
    let shins = 3;
    let roll = 5;
    let item_level = 8;
    let coin_flip = 2;
    let res = resolve(roll, shins, coin_flip, item_level).unwrap();
    assert!(res.shins == shins);
    assert!(res.parts == item_level);
    assert!(res.oddity.is_none());
    assert!(res.iotum.is_none());
    assert!(res.cyphers.is_none());
    assert!(res.artifact.is_some());
}

#[test]
fn test_random_salvage_three_iotum() {
    // A roll of 6 awards three iotum.
    let shins = 9;
    let roll = 6;
    let item_level = 6;
    let coin_flip = 2;
    let res = resolve(roll, shins, coin_flip, item_level).unwrap();
    assert!(res.shins == shins);
    assert!(res.parts == item_level);
    assert!(res.oddity.is_none());
    assert!(res.iotum.is_some() && res.iotum.unwrap().len() == 3);
    assert!(res.cyphers.is_none());
    assert!(res.artifact.is_none());
}

#[test]
fn salvage_table_is_as_printed() {
    for coin_flip in 0..=255u8 {
        assert_eq!(decide_reward(1, coin_flip), Reward::Nothing);
        assert_eq!(decide_reward(2, coin_flip), Reward::Nothing);
        assert_eq!(decide_reward(3, coin_flip), Reward::Oddity);
        assert_eq!(decide_reward(6, coin_flip), Reward::Iotum(3));
    }
    assert_eq!(decide_reward(4, 1), Reward::Iotum(1));
    assert_eq!(decide_reward(4, 2), Reward::Cyphers);
    assert_eq!(decide_reward(5, 1), Reward::Iotum(2));
    assert_eq!(decide_reward(5, 2), Reward::Artifact);
    for roll in [0u8, 7, 8, 100, 255] {
        assert_eq!(decide_reward(roll, 1), Reward::Nothing);
        assert_eq!(decide_reward(roll, 2), Reward::Nothing);
    }
}

#[test]
fn stray_coin_yields_nothing() {
    for roll in [4u8, 5] {
        for coin_flip in [0u8, 3, 200] {
            let res = resolve(roll, 4, coin_flip, 9).unwrap();
            assert_eq!(res.shins, 4);
            assert_eq!(res.parts, 9);
            assert!(res.oddity.is_none());
            assert!(res.iotum.is_none());
            assert!(res.cyphers.is_none());
            assert!(res.artifact.is_none());
        }
    }
}

#[test]
fn shins_and_parts_follow_the_inputs() {
    for roll in 1..=6u8 {
        for coin_flip in 1..=2u8 {
            for (shins, item_level) in [(1u8, 1u8), (10, 10), (7, 0), (3, 255)] {
                let res = resolve(roll, shins, coin_flip, item_level).unwrap();
                assert_eq!(res.shins, shins);
                assert_eq!(res.parts, item_level);
                let slots = [
                    res.oddity.is_some(),
                    res.iotum.is_some(),
                    res.cyphers.is_some(),
                    res.artifact.is_some(),
                ];
                assert!(slots.iter().filter(|filled| **filled).count() <= 1);
            }
        }
    }
}

#[test]
fn three_yields_an_oddity_whatever_the_coin() {
    for coin_flip in [1u8, 2, 9] {
        let res = resolve(3, 5, coin_flip, 4).unwrap();
        let oddity = res.oddity.unwrap();
        assert_eq!(oddity.table, "Oddities");
        assert_eq!(oddity.book, "Discovery");
        assert_eq!(oddity.page_number, 305);
        assert!(1 <= oddity.entry && oddity.entry <= 100);
        assert!(res.iotum.is_none() && res.cyphers.is_none() && res.artifact.is_none());
    }
}

#[test]
fn six_yields_three_iotum_whatever_the_coin() {
    for coin_flip in [1u8, 2, 0] {
        let res = resolve(6, 5, coin_flip, 4).unwrap();
        let iotum = res.iotum.unwrap();
        assert_eq!(iotum.len(), 3);
        for item in iotum {
            assert_eq!(item.name, "Io");
            assert_eq!(item.level, 1);
            assert_eq!(item.value, 1);
            assert!(1 <= item.units_salvaged && item.units_salvaged <= 6);
        }
    }
}

#[test]
fn cyphers_come_one_to_six_with_rolled_levels() {
    let mut seen = [false; 7];
    for _ in 0..400 {
        let res = resolve(4, 2, 2, 2).unwrap();
        assert_eq!(res.shins, 2);
        assert_eq!(res.parts, 2);
        assert!(res.oddity.is_none() && res.iotum.is_none() && res.artifact.is_none());
        let cyphers = res.cyphers.unwrap();
        assert!(1 <= cyphers.len() && cyphers.len() <= 6);
        seen[cyphers.len()] = true;
        for cypher in cyphers {
            assert_eq!(cypher.name, "Detonation");
            assert_eq!(cypher.book, "Discovery");
            assert_eq!(cypher.page_number, 277);
            assert!(3 <= cypher.level && cypher.level <= 8);
        }
    }
    assert!(seen[1..].iter().filter(|hit| **hit).count() >= 2);
}

#[test]
fn artifact_level_is_rolled() {
    let res = resolve(5, 3, 2, 8).unwrap();
    let artifact = res.artifact.unwrap();
    assert_eq!(artifact.name, "Amber casement");
    assert_eq!(artifact.book, "Discovery");
    assert_eq!(artifact.page_number, 292);
    assert!(5 <= artifact.level && artifact.level <= 10);
}

#[test]
fn first_step_names_the_table() {
    assert!(matches!(decide_random_salvage(1, 1, 1, 1), Step::Done(_)));
    assert!(matches!(decide_random_salvage(3, 1, 1, 1), Step::Fetch(_, Lookup::Oddity)));
    assert!(matches!(decide_random_salvage(4, 1, 2, 1), Step::Fetch(_, Lookup::Cypher)));
    assert!(matches!(decide_random_salvage(5, 1, 2, 1), Step::Fetch(_, Lookup::Artifact)));
    for (roll, coin_flip) in [(4u8, 1u8), (5, 1), (6, 1), (6, 2)] {
        match decide_random_salvage(roll, 1, coin_flip, 1) {
            Step::Fetch(_, Lookup::Iotum { roll }) => assert!(1 <= roll && roll <= 100),
            _ => panic!("an iotum lookup was due"),
        }
    }
}

#[test]
fn missing_row_is_a_database_error() {
    fn empty(_lookup: Lookup) -> Option<Row> {
        None
    }
    for (roll, coin_flip) in [(3u8, 1u8), (4, 1), (4, 2), (5, 1), (5, 2), (6, 1)] {
        let err = resolve_with(empty, roll, 1, coin_flip, 1).unwrap_err();
        assert_eq!(err, NumeneraError::DatabaseError);
    }
    assert!(resolve_with(empty, 1, 1, 1, 1).is_ok());
}

#[test]
fn row_of_another_table_is_a_database_error() {
    fn wrong(lookup: Lookup) -> Option<Row> {
        match lookup {
            Lookup::Oddity => Some(Row::Cypher(cypher_row())),
            Lookup::Iotum { .. } => Some(Row::Oddity(oddity_row())),
            Lookup::Cypher => Some(Row::Artifact(artifact_row())),
            Lookup::Artifact => Some(Row::Iotum(iotum_row())),
        }
    }
    for (roll, coin_flip) in [(3u8, 1u8), (4, 1), (4, 2), (5, 1), (5, 2), (6, 1)] {
        let err = resolve_with(wrong, roll, 1, coin_flip, 1).unwrap_err();
        assert_eq!(err, NumeneraError::DatabaseError);
    }
}

#[test]
fn bad_level_of_a_row_is_a_format_error() {
    fn broken(lookup: Lookup) -> Option<Row> {
        match lookup {
            Lookup::Cypher => Some(Row::Cypher(DeviceRow { level: "abc".to_string(), ..cypher_row() })),
            Lookup::Artifact => {
                Some(Row::Artifact(DeviceRow { level: "1d6+".to_string(), ..artifact_row() }))
            }
            Lookup::Iotum { .. } => {
                Some(Row::Iotum(IotumRow { units_salvaged: Some("d6".to_string()), ..iotum_row() }))
            }
            Lookup::Oddity => Some(Row::Oddity(oddity_row())),
        }
    }
    for (roll, coin_flip) in [(4u8, 1u8), (4, 2), (5, 1), (5, 2), (6, 1)] {
        let err = resolve_with(broken, roll, 1, coin_flip, 1).unwrap_err();
        assert_eq!(err, NumeneraError::DataFormatError);
    }
}

#[test]
fn plan_seeds_take_the_level_of_the_salvage() {
    fn seeds(_lookup: Lookup) -> Option<Row> {
        Some(Row::Iotum(IotumRow {
            name: "Plan seed".to_string(),
            level: None,
            units_salvaged: None,
            value: 5,
        }))
    }
    let res = resolve_with(seeds, 6, 1, 1, 7).unwrap();
    let iotum = res.iotum.unwrap();
    assert_eq!(iotum.len(), 3);
    for item in iotum {
        assert_eq!(item.name, "Plan seed");
        assert_eq!(item.level, 7);
        assert_eq!(item.units_salvaged, 7);
        assert_eq!(item.value, 35);
    }
}

#[test]
fn random_salvage_begins_a_resolution() {
    for _ in 0..200 {
        let mut step = random_salvage(4);
        let mut lookups = 0;
        let res = loop {
            match step {
                Step::Done(result) => break result,
                Step::Fetch(state, lookup) => {
                    lookups += 1;
                    assert!(lookups <= 6);
                    step = state.supply(fetch(lookup)).unwrap();
                }
            }
        };
        assert!(1 <= res.shins && res.shins <= 10);
        assert_eq!(res.parts, 4);
        match lookups {
            0 => assert!(
                res.oddity.is_none()
                    && res.iotum.is_none()
                    && res.cyphers.is_none()
                    && res.artifact.is_none()
            ),
            _ => {
                let found = res.oddity.is_some() as usize
                    + res.artifact.is_some() as usize
                    + res.iotum.map_or(0, |iotum| iotum.len())
                    + res.cyphers.map_or(0, |cyphers| cyphers.len());
                assert_eq!(found, lookups);
            }
        }
    }
}
