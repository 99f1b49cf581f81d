//! The table of two-character combinations and what each one rewrites to.

use std::collections::HashMap;
use vstd::prelude::*;
use vstd::std_specs::iter::IteratorSpec;

verus! {

broadcast use vstd::std_specs::hash::group_hash_axioms;

/// Two characters typed one after the other: the previous one, then the
/// current one.
#[derive(Clone, Copy, Debug, PartialEq, Eq, Hash, Structural)]
pub struct KeyCombination(pub char, pub char);

/// What a combination is rewritten to.
#[derive(Clone, Copy, Debug, PartialEq, Eq, Structural)]
pub enum CombinationTarget {
    /// The two characters fold into one.
    Combine(char),
    /// A folded character and its trigger unfold into the two characters
    /// that made it.
    Revert(char, char),
}

/// One more than the largest code point of a character.
const CODE_POINTS: u64 = 0x11_0000;

/// The number that a combination is stored under: no two combinations share
/// one.
spec fn key_code(key: KeyCombination) -> u64 {
    (key.0 as u64 * CODE_POINTS + key.1 as u64) as u64
}

/// Different combinations have different codes.
proof fn lemma_key_code_injective(a: KeyCombination, b: KeyCombination)
    ensures
        key_code(a) == key_code(b) <==> a == b,
{
}

/// The number that `key` is stored under.
fn code_of(key: &KeyCombination) -> (code: u64)
    ensures
        code == key_code(*key),
{
    key.0 as u64 * CODE_POINTS + key.1 as u64
}

/// A finite map from combinations to their targets. It is a hash map keyed
/// by the code of each combination.
#[derive(Debug, PartialEq)]
pub struct KeyCombinationMap {
    entries: HashMap<u64, (KeyCombination, CombinationTarget)>,
}

impl View for KeyCombinationMap {
    type V = Map<KeyCombination, CombinationTarget>;

    closed spec fn view(&self) -> Map<KeyCombination, CombinationTarget> {
        Map::new(
            |key: KeyCombination| self.entries@.contains_key(key_code(key)),
            |key: KeyCombination| self.entries@[key_code(key)].1,
        )
    }
}

impl KeyCombinationMap {
    /// The representation invariant: each entry is stored under the code of
    /// its own combination.
    pub closed spec fn wf(&self) -> bool {
        forall|code: u64| #[trigger]
            self.entries@.contains_key(code) ==> key_code(self.entries@[code].0) == code
    }

    /// A map without any combination.
    pub fn new() -> (map: Self)
        ensures
            map.wf(),
            map@ == Map::<KeyCombination, CombinationTarget>::empty(),
    {
        let map = Self { entries: HashMap::new() };
        assert(map@ =~= Map::<KeyCombination, CombinationTarget>::empty());
        map
    }

    /// Maps `key` to `target`, and returns what `key` was mapped to before.
    pub fn insert(&mut self, key: KeyCombination, target: CombinationTarget) -> (previous: Option<
        CombinationTarget,
    >)
        requires
            old(self).wf(),
        ensures
            final(self).wf(),
            final(self)@ == old(self)@.insert(key, target),
            previous == if old(self)@.contains_key(key) {
                Some(old(self)@[key])
            } else {
                None
            },
    {
        let code: u64 = code_of(&key);
        let replaced = self.entries.insert(code, (key, target));
        proof {
            assert forall|other: KeyCombination|
                key_code(other) == code <==> other == key by {
                lemma_key_code_injective(other, key);
            }
            assert(self@ =~= old(self)@.insert(key, target));
        }
        match replaced {
            Some(entry) => Some(entry.1),
            None => None,
        }
    }

    /// What `key` is mapped to, if anything.
    pub fn get(&self, key: &KeyCombination) -> (target: Option<&CombinationTarget>)
        requires
            self.wf(),
        ensures
            target == if self@.contains_key(*key) {
                Some(&self@[*key])
            } else {
                None
            },
    {
        let code: u64 = code_of(key);
        match self.entries.get(&code) {
            Some(entry) => Some(&entry.1),
            None => None,
        }
    }

    /// The map has as many combinations as there are stored entries.
    proof fn lemma_same_size(&self)
        requires
            self.wf(),
        ensures
            self@.dom().finite(),
            self@.len() == self.entries@.len(),
    {
        let stored = self.entries@;
        let key_of = |code: u64| stored[code].0;
        assert(stored.dom().map(key_of) =~= self@.dom()) by {
            assert forall|key: KeyCombination| self@.dom().contains(key) implies stored.dom().map(
                key_of,
            ).contains(key) by {
                let code = key_code(key);
                lemma_key_code_injective(stored[code].0, key);
                assert(stored.dom().contains(code) && key_of(code) == key);
            }
        }
        vstd::set_lib::lemma_map_size(stored.dom(), self@.dom(), key_of);
    }

    /// The number of combinations in the map.
    pub fn len(&self) -> (n: usize)
        requires
            self.wf(),
        ensures
            self@.dom().finite(),
            n == self@.len(),
    {
        proof {
            self.lemma_same_size();
        }
        self.entries.len()
    }

    /// Every combination of the map with its target, each once, in no
    /// particular order.
    pub fn entries(&self) -> (list: Vec<(KeyCombination, CombinationTarget)>)
        requires
            self.wf(),
        ensures
            list@.no_duplicates(),
            list@.to_set() == self@.kv_pairs(),
    {
        let ghost stored = self.entries@;
        let ghost walked = self.entries.iter().remaining();
        let mut list: Vec<(KeyCombination, CombinationTarget)> = Vec::new();
        for entry in it: self.entries.iter()
            invariant
                it.seq() == walked,
                list@.len() == it.index(),
                forall|i: int| 0 <= i < it.index() ==> list@[i] == *(#[trigger] walked[i]).1,
        {
            list.push(*entry.1);
        }
        proof {
            assert forall|i: int, j: int|
                0 <= i < list@.len() && 0 <= j < list@.len() && i != j implies list@[i]
                != list@[j] by {
                assert(stored.contains_key(*walked[i].0) && stored[*walked[i].0] == *walked[i].1);
                assert(stored.contains_key(*walked[j].0) && stored[*walked[j].0] == *walked[j].1);
                if list@[i] == list@[j] {
                    assert(*walked[i].0 == *walked[j].0);
                    assert(walked[i] == walked[j]);
                }
            }
            assert forall|pair: (KeyCombination, CombinationTarget)|
                list@.to_set().contains(pair) <==> self@.kv_pairs().contains(pair) by {
                if list@.to_set().contains(pair) {
                    let i = choose|i: int| 0 <= i < list@.len() && list@[i] == pair;
                    assert(stored.contains_key(*walked[i].0) && stored[*walked[i].0] == *walked[i].1);
                }
                if self@.kv_pairs().contains(pair) {
                    let code = key_code(pair.0);
                    assert(stored.contains_key(code));
                    assert(walked.contains((&code, &stored[code])));
                    let i = choose|i: int|
                        0 <= i < walked.len() && walked[i] == (&code, &stored[code]);
                    lemma_key_code_injective(stored[code].0, pair.0);
                    assert(list@[i] == pair);
                }
            }
            assert(list@.to_set() =~= self@.kv_pairs());
        }
        list
    }
}

/// What the accent table rewrites `previous` followed by `current` to:
/// `None` where the two do not combine.
pub open spec fn accent_rewrite(previous: char, current: char) -> Option<CombinationTarget> {
    match (previous, current) {
        // circumflex
        ('a', 'a') => Some(CombinationTarget::Combine('â')),
        ('e', 'e') => Some(CombinationTarget::Combine('ê')),
        ('i', 'i') => Some(CombinationTarget::Combine('î')),
        ('o', 'o') => Some(CombinationTarget::Combine('ô')),
        ('u', 'u') => Some(CombinationTarget::Combine('û')),
        // grave
        ('a', 'f') => Some(CombinationTarget::Combine('à')),
        ('e', 'f') => Some(CombinationTarget::Combine('è')),
        ('u', 'f') => Some(CombinationTarget::Combine('ù')),
        // diaeresis
        ('e', 'x') => Some(CombinationTarget::Combine('ë')),
        ('i', 'x') => Some(CombinationTarget::Combine('ï')),
        ('u', 'x') => Some(CombinationTarget::Combine('ü')),
        // acute
        ('e', 'w') => Some(CombinationTarget::Combine('é')),
        // cedilla
        ('c', 'c') => Some(CombinationTarget::Combine('ç')),
        // ligatures
        ('a', 'e') => Some(CombinationTarget::Combine('æ')),
        ('o', 'e') => Some(CombinationTarget::Combine('œ')),
        // each of the above, undone by its trigger
        ('â', 'a') => Some(CombinationTarget::Revert('a', 'a')),
        ('ê', 'e') => Some(CombinationTarget::Revert('e', 'e')),
        ('î', 'i') => Some(CombinationTarget::Revert('i', 'i')),
        ('ô', 'o') => Some(CombinationTarget::Revert('o', 'o')),
        ('û', 'u') => Some(CombinationTarget::Revert('u', 'u')),
        ('à', 'f') => Some(CombinationTarget::Revert('a', 'f')),
        ('è', 'f') => Some(CombinationTarget::Revert('e', 'f')),
        ('ù', 'f') => Some(CombinationTarget::Revert('u', 'f')),
        ('ë', 'x') => Some(CombinationTarget::Revert('e', 'x')),
        ('ï', 'x') => Some(CombinationTarget::Revert('i', 'x')),
        ('ü', 'x') => Some(CombinationTarget::Revert('u', 'x')),
        ('é', 'w') => Some(CombinationTarget::Revert('e', 'w')),
        ('ç', 'c') => Some(CombinationTarget::Revert('c', 'c')),
        ('æ', 'e') => Some(CombinationTarget::Revert('a', 'e')),
        ('œ', 'e') => Some(CombinationTarget::Revert('o', 'e')),
        _ => None,
    }
}

/// The accent table as a map: a combination is in it exactly where
/// `accent_rewrite` gives a target, and is mapped to that target.
pub open spec fn accent_table() -> Map<KeyCombination, CombinationTarget> {
    Map::new(
        |key: KeyCombination| accent_rewrite(key.0, key.1) is Some,
        |key: KeyCombination| accent_rewrite(key.0, key.1).unwrap(),
    )
}

/// Every fold of the accent table has its unfold: where `first` followed by
/// `trigger` folds into `folded`, `folded` followed by `trigger` unfolds
/// into `first` and `trigger` again.
pub proof fn lemma_accent_table_reverts(first: char, trigger: char, folded: char)
    requires
        accent_rewrite(first, trigger) == Some(CombinationTarget::Combine(folded)),
    ensures
        accent_rewrite(folded, trigger) == Some(CombinationTarget::Revert(first, trigger)),
{
}

/// Every unfold of the accent table undoes a fold: where `folded` followed
/// by `trigger` unfolds into `first` and `second`, `second` is the trigger,
/// and `first` followed by it folds into `folded`.
pub proof fn lemma_accent_table_folds(folded: char, trigger: char, first: char, second: char)
    requires
        accent_rewrite(folded, trigger) == Some(CombinationTarget::Revert(first, second)),
    ensures
        second == trigger,
        accent_rewrite(first, trigger) == Some(CombinationTarget::Combine(folded)),
{
}

/// Builds the accent table.
pub fn setup_key_combination_map() -> (char_map: KeyCombinationMap)
    ensures
        char_map.wf(),
        char_map@ == accent_table(),
{
    let mut char_map = KeyCombinationMap::new();

    // Combination map
    char_map.insert(KeyCombination('a', 'a'), CombinationTarget::Combine('â'));
    char_map.insert(KeyCombination('e', 'e'), CombinationTarget::Combine('ê'));
    char_map.insert(KeyCombination('i', 'i'), CombinationTarget::Combine('î'));
    char_map.insert(KeyCombination('o', 'o'), CombinationTarget::Combine('ô'));
    char_map.insert(KeyCombination('u', 'u'), CombinationTarget::Combine('û'));

    char_map.insert(KeyCombination('a', 'f'), CombinationTarget::Combine('à'));
    char_map.insert(KeyCombination('e', 'f'), CombinationTarget::Combine('è'));
    char_map.insert(KeyCombination('u', 'f'), CombinationTarget::Combine('ù'));

    char_map.insert(KeyCombination('e', 'x'), CombinationTarget::Combine('ë'));
    char_map.insert(KeyCombination('i', 'x'), CombinationTarget::Combine('ï'));
    char_map.insert(KeyCombination('u', 'x'), CombinationTarget::Combine('ü'));

    char_map.insert(KeyCombination('e', 'w'), CombinationTarget::Combine('é'));

    char_map.insert(KeyCombination('c', 'c'), CombinationTarget::Combine('ç'));

    char_map.insert(KeyCombination('a', 'e'), CombinationTarget::Combine('æ'));
    char_map.insert(KeyCombination('o', 'e'), CombinationTarget::Combine('œ'));

    // Reverse combination map
    char_map.insert(KeyCombination('â', 'a'), CombinationTarget::Revert('a', 'a'));
    char_map.insert(KeyCombination('ê', 'e'), CombinationTarget::Revert('e', 'e'));
    char_map.insert(KeyCombination('î', 'i'), CombinationTarget::Revert('i', 'i'));
    char_map.insert(KeyCombination('ô', 'o'), CombinationTarget::Revert('o', 'o'));
    char_map.insert(KeyCombination('û', 'u'), CombinationTarget::Revert('u', 'u'));

    char_map.insert(KeyCombination('à', 'f'), CombinationTarget::Revert('a', 'f'));
    char_map.insert(KeyCombination('è', 'f'), CombinationTarget::Revert('e', 'f'));
    char_map.insert(KeyCombination('ù', 'f'), CombinationTarget::Revert('u', 'f'));

    char_map.insert(KeyCombination('ë', 'x'), CombinationTarget::Revert('e', 'x'));
    char_map.insert(KeyCombination('ï', 'x'), CombinationTarget::Revert('i', 'x'));
    char_map.insert(KeyCombination('ü', 'x'), CombinationTarget::Revert('u', 'x'));

    char_map.insert(KeyCombination('é', 'w'), CombinationTarget::Revert('e', 'w'));

    char_map.insert(KeyCombination('ç', 'c'), CombinationTarget::Revert('c', 'c'));

    char_map.insert(KeyCombination('æ', 'e'), CombinationTarget::Revert('a', 'e'));
    char_map.insert(KeyCombination('œ', 'e'), CombinationTarget::Revert('o', 'e'));

    assert(char_map@ =~= accent_table());
    char_map
}

} // verus!
