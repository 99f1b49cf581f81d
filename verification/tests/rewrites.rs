use clavfrancais_engine::char_buffer::{
    CharBuffer, FixedSizeCharBuffer, HeapSizedCharBuffer, ResizableCharBuffer,
    StackSizedCharBuffer,
};
use clavfrancais_engine::input_controller::{
    setup_key_combination_map, CombinationTarget, InputController, KeyCombination,
    KeyCombinationMap,
};

/// Empties the buffer of `controller` and returns what it held, oldest first.
fn drain<T: CharBuffer>(controller: &mut InputController<T>) -> Vec<char> {
    let mut held = Vec::new();
    while let Some(c) = controller.char_buffer.pop() {
        held.push(c);
    }
    held.reverse();
    held
}

fn combine_round_trip<T: CharBuffer>(make: fn() -> T) {
    let table = setup_key_combination_map();
    for (key, target) in table.entries() {
        if let CombinationTarget::Combine(folded) = target {
            let mut controller = InputController::new(setup_key_combination_map(), make());
            assert_eq!(controller.add_char(key.0), None);
            assert_eq!(controller.add_char(key.1), Some(CombinationTarget::Combine(folded)));
            assert_eq!(drain(&mut controller), vec![folded]);
        }
    }
}

#[test]
fn every_fold_leaves_the_folded_character_alone() {
    combine_round_trip(ResizableCharBuffer::new);
    combine_round_trip(|| FixedSizeCharBuffer::new(10));
    combine_round_trip(|| HeapSizedCharBuffer::new(10));
    combine_round_trip(StackSizedCharBuffer::<30>::default);
    combine_round_trip(|| HeapSizedCharBuffer::new(1));
}

fn revert_round_trip<T: CharBuffer>(make: fn() -> T) {
    let table = setup_key_combination_map();
    for (key, target) in table.entries() {
        if let CombinationTarget::Combine(folded) = target {
            let mut controller = InputController::new(setup_key_combination_map(), make());
            assert_eq!(controller.add_char(key.0), None);
            assert_eq!(controller.add_char(key.1), Some(CombinationTarget::Combine(folded)));
            assert_eq!(
                controller.add_char(key.1),
                Some(CombinationTarget::Revert(key.0, key.1))
            );
            assert_eq!(drain(&mut controller), vec![key.0, key.1]);
        }
    }
}

#[test]
fn typing_the_trigger_again_undoes_every_fold() {
    revert_round_trip(ResizableCharBuffer::new);
    revert_round_trip(|| FixedSizeCharBuffer::new(2));
    revert_round_trip(|| HeapSizedCharBuffer::new(2));
    revert_round_trip(StackSizedCharBuffer::<2>::default);
}

#[test]
fn a_buffer_of_one_keeps_only_the_trigger_of_an_unfold() {
    let mut controller =
        InputController::new(setup_key_combination_map(), HeapSizedCharBuffer::new(1));
    assert_eq!(controller.add_char('e'), None);
    assert_eq!(controller.add_char('w'), Some(CombinationTarget::Combine('é')));
    assert_eq!(controller.add_char('w'), Some(CombinationTarget::Revert('e', 'w')));
    assert_eq!(drain(&mut controller), vec!['w']);
}

#[test]
fn an_unfold_in_a_full_buffer_drops_the_oldest_character() {
    let mut controller =
        InputController::new(setup_key_combination_map(), FixedSizeCharBuffer::new(3));
    for c in "xyzc".chars() {
        assert_eq!(controller.add_char(c), None);
    }
    assert_eq!(controller.add_char('c'), Some(CombinationTarget::Combine('ç')));
    assert_eq!(controller.char_buffer.len(), 3);
    assert_eq!(controller.add_char('c'), Some(CombinationTarget::Revert('c', 'c')));
    assert_eq!(drain(&mut controller), vec!['z', 'c', 'c']);
}

#[test]
fn unmapped_characters_pass_through() {
    let mut controller =
        InputController::new(setup_key_combination_map(), ResizableCharBuffer::new());
    assert_eq!(controller.add_char('p'), None);
    assert_eq!(controller.add_char('q'), None);
    assert_eq!(drain(&mut controller), vec!['p', 'q']);

    let mut controller =
        InputController::new(setup_key_combination_map(), StackSizedCharBuffer::<1>::default());
    assert_eq!(controller.add_char('p'), None);
    assert_eq!(controller.add_char('q'), None);
    assert_eq!(drain(&mut controller), vec!['q']);
}

#[test]
fn the_order_of_the_two_characters_matters() {
    let mut controller =
        InputController::new(setup_key_combination_map(), ResizableCharBuffer::new());
    assert_eq!(controller.add_char('f'), None);
    assert_eq!(controller.add_char('a'), None);
    assert_eq!(controller.add_char('f'), Some(CombinationTarget::Combine('à')));
    assert_eq!(drain(&mut controller), vec!['f', 'à']);
}

#[test]
fn a_folded_character_folds_no_further() {
    let mut controller =
        InputController::new(setup_key_combination_map(), ResizableCharBuffer::new());
    assert_eq!(controller.add_char('a'), None);
    assert_eq!(controller.add_char('a'), Some(CombinationTarget::Combine('â')));
    assert_eq!(controller.add_char('e'), None);
    assert_eq!(drain(&mut controller), vec!['â', 'e']);
}

#[test]
fn typing_a_twice_folds_into_a_circumflex() {
    let mut controller =
        InputController::new(setup_key_combination_map(), HeapSizedCharBuffer::new(10));
    assert_eq!(controller.add_char('a'), None);
    assert_eq!(controller.add_char('a'), Some(CombinationTarget::Combine('â')));
    assert_eq!(controller.char_buffer.len(), 1);
    assert_eq!(controller.char_buffer.top(), Some('â'));
}

#[test]
fn backspace_forgets_the_last_character() {
    let mut controller =
        InputController::new(setup_key_combination_map(), ResizableCharBuffer::new());
    controller.backspace();
    assert!(controller.char_buffer.is_empty());
    assert_eq!(controller.add_char('e'), None);
    assert_eq!(controller.add_char('z'), None);
    controller.backspace();
    assert_eq!(controller.char_buffer.top(), Some('e'));
    assert_eq!(controller.add_char('e'), Some(CombinationTarget::Combine('ê')));
    assert_eq!(drain(&mut controller), vec!['ê']);
}

#[test]
fn nothing_combines_after_a_clear() {
    let mut controller =
        InputController::new(setup_key_combination_map(), HeapSizedCharBuffer::new(10));
    assert_eq!(controller.add_char('a'), None);
    controller.clear_char_buffer();
    assert_eq!(controller.char_buffer.len(), 0);
    assert_eq!(controller.add_char('a'), None);
    assert_eq!(drain(&mut controller), vec!['a']);
}

#[test]
fn a_controller_goes_by_the_table_that_it_was_given() {
    let mut table = KeyCombinationMap::new();
    table.insert(KeyCombination('s', 's'), CombinationTarget::Combine('ß'));
    let mut controller = InputController::new(table, ResizableCharBuffer::new());
    assert_eq!(controller.add_char('a'), None);
    assert_eq!(controller.add_char('a'), None);
    assert_eq!(controller.add_char('s'), None);
    assert_eq!(controller.add_char('s'), Some(CombinationTarget::Combine('ß')));
    assert_eq!(controller.add_char('s'), None);
    assert_eq!(drain(&mut controller), vec!['a', 'a', 'ß', 's']);
}

#[test]
fn a_controller_starts_from_the_buffer_that_it_was_given() {
    let mut buffer = ResizableCharBuffer::new();
    buffer.push('u');
    let mut controller = InputController::new(setup_key_combination_map(), buffer);
    assert_eq!(controller.add_char('x'), Some(CombinationTarget::Combine('ü')));
    assert_eq!(drain(&mut controller), vec!['ü']);
}
