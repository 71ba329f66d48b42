use indexer_cache::changes::{ChangeEvent, ChangeStage, ChangesError};

type Stage = ChangeStage<u32, &'static str, String>;
type Event = ChangeEvent<u32, &'static str, String>;

#[test]
fn changes_start_with_the_object_changes() {
    assert_eq!(Stage::start(), ChangeStage::ObjectChanges);
    assert_eq!(Stage::start().into_outcome(), None);
}

#[test]
fn changes_of_a_good_transaction() {
    let stage = Stage::start();
    let stage = stage.advance(Event::ObjectChanges(Ok(vec!["created", "mutated"])));
    assert_eq!(stage, ChangeStage::InputObjects { object_changes: vec!["created", "mutated"] });
    let stage = stage.advance(Event::InputObjects { valid: true });
    assert_eq!(stage, ChangeStage::BalanceChanges { object_changes: vec!["created", "mutated"] });
    let stage = stage.advance(Event::BalanceChanges(Ok(vec![7, 8])));
    assert_eq!(stage.into_outcome(), Some(Ok((vec![7, 8], vec!["created", "mutated"]))));
}

#[test]
fn failed_object_changes_end_the_computation() {
    let stage = Stage::start().advance(Event::ObjectChanges(Err("no object".to_string())));
    assert_eq!(
        stage,
        ChangeStage::Finished(Err(ChangesError::Algorithm("no object".to_string())))
    );
}

#[test]
fn invalid_input_objects_are_fatal() {
    let stage = Stage::start()
        .advance(Event::ObjectChanges(Ok(vec!["created"])))
        .advance(Event::InputObjects { valid: false });
    assert_eq!(stage.into_outcome(), Some(Err(ChangesError::InvalidInputObjects)));
}

#[test]
fn failed_balance_changes_end_the_computation() {
    let stage = Stage::start()
        .advance(Event::ObjectChanges(Ok(vec!["created"])))
        .advance(Event::InputObjects { valid: true })
        .advance(Event::BalanceChanges(Err("no coin".to_string())));
    assert_eq!(
        stage.into_outcome(),
        Some(Err(ChangesError::Algorithm("no coin".to_string())))
    );
}

#[test]
fn a_report_out_of_turn_changes_nothing() {
    let stage = Stage::start().advance(Event::BalanceChanges(Ok(vec![1])));
    assert_eq!(stage, ChangeStage::ObjectChanges);
    let stage = stage.advance(Event::InputObjects { valid: false });
    assert_eq!(stage, ChangeStage::ObjectChanges);
    let stage = stage
        .advance(Event::ObjectChanges(Ok(vec!["a"])))
        .advance(Event::ObjectChanges(Ok(vec!["b"])));
    assert_eq!(stage, ChangeStage::InputObjects { object_changes: vec!["a"] });
    let stage = stage
        .advance(Event::InputObjects { valid: true })
        .advance(Event::InputObjects { valid: false });
    assert_eq!(stage, ChangeStage::BalanceChanges { object_changes: vec!["a"] });
}

#[test]
fn a_finished_computation_stays_finished() {
    let stage = Stage::start().advance(Event::ObjectChanges(Err("e".to_string())));
    let stage = stage
        .advance(Event::ObjectChanges(Ok(vec!["a"])))
        .advance(Event::InputObjects { valid: true })
        .advance(Event::BalanceChanges(Ok(vec![1])));
    assert_eq!(stage.into_outcome(), Some(Err(ChangesError::Algorithm("e".to_string()))));
}
