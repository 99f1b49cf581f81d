use clavfrancais_engine::input_controller::{
    setup_key_combination_map, CombinationTarget, KeyCombination, KeyCombinationMap,
};

/// The folds of the accent table: first character, trigger, folded character.
fn folds() -> Vec<(char, char, char)> {
    vec![
        ('a', 'a', 'â'),
        ('e', 'e', 'ê'),
        ('i', 'i', 'î'),
        ('o', 'o', 'ô'),
        ('u', 'u', 'û'),
        ('a', 'f', 'à'),
        ('e', 'f', 'è'),
        ('u', 'f', 'ù'),
        ('e', 'x', 'ë'),
        ('i', 'x', 'ï'),
        ('u', 'x', 'ü'),
        ('e', 'w', 'é'),
        ('c', 'c', 'ç'),
        ('a', 'e', 'æ'),
        ('o', 'e', 'œ'),
    ]
}

#[test]
fn accent_table_holds_every_fold() {
    let table = setup_key_combination_map();
    for (first, trigger, folded) in folds() {
        assert_eq!(
            table.get(&KeyCombination(first, trigger)),
            Some(&CombinationTarget::Combine(folded))
        );
    }
}

#[test]
fn accent_table_holds_the_unfold_of_every_fold() {
    let table = setup_key_combination_map();
    for (first, trigger, folded) in folds() {
        assert_eq!(
            table.get(&KeyCombination(folded, trigger)),
            Some(&CombinationTarget::Revert(first, trigger))
        );
    }
}

#[test]
fn accent_table_holds_thirty_combinations() {
    let table = setup_key_combination_map();
    assert_eq!(table.len(), 30);
    assert_eq!(table.entries().len(), 30);
}

#[test]
fn accent_table_holds_nothing_else() {
    let table = setup_key_combination_map();
    let folds = folds();
    for (key, target) in table.entries() {
        match target {
            CombinationTarget::Combine(folded) => {
                assert!(folds.contains(&(key.0, key.1, folded)));
            }
            CombinationTarget::Revert(first, trigger) => {
                assert_eq!(key.1, trigger);
                assert!(folds.contains(&(first, trigger, key.0)));
            }
        }
    }
    assert_eq!(table.get(&KeyCombination('a', 'b')), None);
    assert_eq!(table.get(&KeyCombination('f', 'a')), None);
    assert_eq!(table.get(&KeyCombination('a', 'x')), None);
    assert_eq!(table.get(&KeyCombination('â', 'â')), None);
    assert_eq!(table.get(&KeyCombination('\0', '\0')), None);
    assert_eq!(table.get(&KeyCombination(char::MAX, char::MAX)), None);
}

#[test]
fn entries_lists_each_combination_once() {
    let table = setup_key_combination_map();
    let entries = table.entries();
    for (i, (key, target)) in entries.iter().enumerate() {
        assert_eq!(table.get(key), Some(target));
        for (other, _) in &entries[i + 1..] {
            assert_ne!(key, other);
        }
    }
}

#[test]
fn new_map_is_empty() {
    let map = KeyCombinationMap::new();
    assert_eq!(map.len(), 0);
    assert!(map.entries().is_empty());
    assert_eq!(map.get(&KeyCombination('a', 'a')), None);
}

#[test]
fn insert_maps_the_combination_and_hands_back_the_old_target() {
    let mut map = KeyCombinationMap::new();
    assert_eq!(
        map.insert(KeyCombination('s', 's'), CombinationTarget::Combine('ß')),
        None
    );
    assert_eq!(map.len(), 1);
    assert_eq!(
        map.get(&KeyCombination('s', 's')),
        Some(&CombinationTarget::Combine('ß'))
    );
    assert_eq!(
        map.insert(KeyCombination('s', 's'), CombinationTarget::Revert('s', 'z')),
        Some(CombinationTarget::Combine('ß'))
    );
    assert_eq!(map.len(), 1);
    assert_eq!(
        map.get(&KeyCombination('s', 's')),
        Some(&CombinationTarget::Revert('s', 'z'))
    );
}

#[test]
fn combinations_that_differ_in_one_character_are_kept_apart() {
    let mut map = KeyCombinationMap::new();
    map.insert(KeyCombination('a', 'b'), CombinationTarget::Combine('1'));
    map.insert(KeyCombination('b', 'a'), CombinationTarget::Combine('2'));
    map.insert(KeyCombination('a', 'c'), CombinationTarget::Combine('3'));
    map.insert(KeyCombination('\0', '\u{10FFFF}'), CombinationTarget::Combine('4'));
    map.insert(KeyCombination('\u{1}', '\0'), CombinationTarget::Combine('5'));
    map.insert(KeyCombination('\u{10FFFF}', '\u{10FFFF}'), CombinationTarget::Combine('6'));
    map.insert(KeyCombination('\u{10FFFF}', '\0'), CombinationTarget::Combine('7'));
    assert_eq!(map.len(), 7);
    assert_eq!(map.get(&KeyCombination('a', 'b')), Some(&CombinationTarget::Combine('1')));
    assert_eq!(map.get(&KeyCombination('b', 'a')), Some(&CombinationTarget::Combine('2')));
    assert_eq!(map.get(&KeyCombination('a', 'c')), Some(&CombinationTarget::Combine('3')));
    assert_eq!(
        map.get(&KeyCombination('\0', '\u{10FFFF}')),
        Some(&CombinationTarget::Combine('4'))
    );
    assert_eq!(map.get(&KeyCombination('\u{1}', '\0')), Some(&CombinationTarget::Combine('5')));
    assert_eq!(
        map.get(&KeyCombination('\u{10FFFF}', '\u{10FFFF}')),
        Some(&CombinationTarget::Combine('6'))
    );
    assert_eq!(
        map.get(&KeyCombination('\u{10FFFF}', '\0')),
        Some(&CombinationTarget::Combine('7'))
    );
    assert_eq!(map.get(&KeyCombination('c', 'a')), None);
}

#[test]
fn maps_with_the_same_combinations_are_equal() {
    assert_eq!(setup_key_combination_map(), setup_key_combination_map());
    let mut other = setup_key_combination_map();
    other.insert(KeyCombination('a', 'a'), CombinationTarget::Combine('ä'));
    assert_ne!(other, setup_key_combination_map());
}
