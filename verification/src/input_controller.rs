//! The controller that decides, for each typed character, whether it
//! combines with the one before it.

use crate::char_buffer::{popped, pushed, pushed_all, top_of, within_limit, CharBuffer};
use vstd::prelude::*;

mod key_combination_map;

pub use key_combination_map::{
    accent_rewrite, accent_table, lemma_accent_table_folds, lemma_accent_table_reverts,
    setup_key_combination_map, CombinationTarget, KeyCombination, KeyCombinationMap,
};

verus! {

/// The rewrite that typing `current` after the characters `s` calls for:
/// what `table` maps the top of `s` followed by `current` to, and `None`
/// where `s` is empty or the table has no such combination.
pub open spec fn rewrite_of(
    table: Map<KeyCombination, CombinationTarget>,
    s: Seq<char>,
    current: char,
) -> Option<CombinationTarget> {
    match top_of(s) {
        Some(previous) if table.contains_key(KeyCombination(previous, current)) => Some(
            table[KeyCombination(previous, current)],
        ),
        _ => None,
    }
}

/// What a buffer of the given limit holds once `current` was typed after the
/// characters `s`. Without a rewrite `current` is pushed. A combine replaces
/// the top by the folded character. A revert replaces the top by the two
/// characters that it unfolds to, which may drop the oldest character of a
/// full buffer.
pub open spec fn rewritten(
    table: Map<KeyCombination, CombinationTarget>,
    s: Seq<char>,
    limit: Option<nat>,
    current: char,
) -> Seq<char> {
    match rewrite_of(table, s, current) {
        None => pushed(s, limit, current),
        Some(CombinationTarget::Combine(folded)) => s.drop_last().push(folded),
        Some(CombinationTarget::Revert(first, second)) => pushed(
            s.drop_last().push(first),
            limit,
            second,
        ),
    }
}

/// Tracks the characters typed so far and reports the rewrite that each new
/// character calls for.
#[derive(Debug)]
pub struct InputController<T: CharBuffer> {
    pub char_buffer: T,
    pub combination_map: KeyCombinationMap,
}

impl<T: CharBuffer> InputController<T> {
    /// The controller is well-formed where its buffer and its table are.
    pub open spec fn wf(&self) -> bool {
        self.char_buffer.wf() && self.combination_map.wf()
    }

    /// A controller that looks combinations up in `combination_map` and
    /// keeps the typed characters in `char_buffer`.
    pub fn new(combination_map: KeyCombinationMap, char_buffer: T) -> (controller: Self)
        requires
            combination_map.wf(),
            char_buffer.wf(),
        ensures
            controller.wf(),
            controller.char_buffer == char_buffer,
            controller.combination_map == combination_map,
    {
        Self { char_buffer, combination_map }
    }

    /// Takes in the character that was just typed and returns the rewrite
    /// that it calls for, after bringing the buffer in line with that
    /// rewrite.
    pub fn add_char(&mut self, current_char: char) -> (target: Option<CombinationTarget>)
        requires
            old(self).wf(),
        ensures
            final(self).wf(),
            final(self).combination_map == old(self).combination_map,
            final(self).char_buffer.limit() == old(self).char_buffer.limit(),
            target == rewrite_of(
                old(self).combination_map@,
                old(self).char_buffer@,
                current_char,
            ),
            final(self).char_buffer@ == rewritten(
                old(self).combination_map@,
                old(self).char_buffer@,
                old(self).char_buffer.limit(),
                current_char,
            ),
    {
        proof {
            self.char_buffer.lemma_within_limit();
        }
        let Some(previous_char) = self.char_buffer.top() else {
            self.char_buffer.push(current_char);
            return None;
        };

        let Some(combination_target) = self.combination_map.get(
            &KeyCombination(previous_char, current_char),
        ) else {
            self.char_buffer.push(current_char);
            return None;
        };
        let combination_target = *combination_target;

        self.char_buffer.pop();

        match combination_target {
            CombinationTarget::Combine(f) => {
                self.char_buffer.push(f);
            },
            CombinationTarget::Revert(f, s) => {
                self.char_buffer.push(f);
                self.char_buffer.push(s);
            },
        }

        Some(combination_target)
    }

    /// Forgets every character typed so far.
    pub fn clear_char_buffer(&mut self)
        requires
            old(self).wf(),
        ensures
            final(self).wf(),
            final(self).combination_map == old(self).combination_map,
            final(self).char_buffer.limit() == old(self).char_buffer.limit(),
            final(self).char_buffer@ == Seq::<char>::empty(),
    {
        self.char_buffer.clear();
    }

    /// Forgets the most recent character, as after a deletion by the user.
    pub fn backspace(&mut self)
        requires
            old(self).wf(),
        ensures
            final(self).wf(),
            final(self).combination_map == old(self).combination_map,
            final(self).char_buffer.limit() == old(self).char_buffer.limit(),
            final(self).char_buffer@ == popped(old(self).char_buffer@),
    {
        self.char_buffer.pop();
    }
}

/// The buffer after each of `typed` went through a controller in turn,
/// starting from the characters `s`.
pub open spec fn rewritten_all(
    table: Map<KeyCombination, CombinationTarget>,
    s: Seq<char>,
    limit: Option<nat>,
    typed: Seq<char>,
) -> Seq<char>
    decreases typed.len(),
{
    if typed.len() == 0 {
        s
    } else {
        rewritten(table, rewritten_all(table, s, limit, typed.drop_last()), limit, typed.last())
    }
}

/// Whatever is typed, the buffer stays within its limit.
pub proof fn lemma_rewritten_within_limit(
    table: Map<KeyCombination, CombinationTarget>,
    s: Seq<char>,
    limit: Option<nat>,
    current: char,
)
    requires
        within_limit(s, limit),
    ensures
        within_limit(rewritten(table, s, limit, current), limit),
{
}

/// Combine round-trip: where the table folds `first` followed by `trigger`
/// into `folded`, typing the two into an empty controller calls for no
/// rewrite at `first` and for the fold at `trigger`, and leaves `folded`
/// alone in the buffer.
pub proof fn lemma_combine_round_trip(
    table: Map<KeyCombination, CombinationTarget>,
    limit: Option<nat>,
    first: char,
    trigger: char,
    folded: char,
)
    requires
        within_limit(seq![], limit),
        table.contains_key(KeyCombination(first, trigger)),
        table[KeyCombination(first, trigger)] == CombinationTarget::Combine(folded),
    ensures
        rewrite_of(table, seq![], first) == None::<CombinationTarget>,
        rewritten(table, seq![], limit, first) == seq![first],
        rewrite_of(table, seq![first], trigger) == Some(CombinationTarget::Combine(folded)),
        rewritten(table, seq![first], limit, trigger) == seq![folded],
{
    assert(rewritten(table, seq![], limit, first) =~= seq![first]);
    assert(rewritten(table, seq![first], limit, trigger) =~= seq![folded]);
}

/// Revert round-trip: where the table folds `first` followed by `trigger`
/// into `folded` and unfolds `folded` followed by `trigger`, typing the
/// trigger once more after the fold calls for the unfold, and leaves in the
/// buffer what typing `first` and `trigger` into an empty buffer would have
/// left without any table: the two of them in a buffer with room for two, the
/// trigger alone in a buffer of capacity one.
pub proof fn lemma_revert_round_trip(
    table: Map<KeyCombination, CombinationTarget>,
    limit: Option<nat>,
    first: char,
    trigger: char,
    folded: char,
)
    requires
        within_limit(seq![], limit),
        table.contains_key(KeyCombination(first, trigger)),
        table[KeyCombination(first, trigger)] == CombinationTarget::Combine(folded),
        table.contains_key(KeyCombination(folded, trigger)),
        table[KeyCombination(folded, trigger)] == CombinationTarget::Revert(first, trigger),
    ensures
        rewritten_all(table, seq![], limit, seq![first, trigger]) == seq![folded],
        rewrite_of(table, seq![folded], trigger) == Some(
            CombinationTarget::Revert(first, trigger),
        ),
        rewritten_all(table, seq![], limit, seq![first, trigger, trigger]) == pushed_all(
            seq![],
            limit,
            seq![first, trigger],
        ),
        limit != Some(1nat) ==> rewritten_all(table, seq![], limit, seq![first, trigger, trigger])
            == seq![first, trigger],
        limit == Some(1nat) ==> rewritten_all(table, seq![], limit, seq![first, trigger, trigger])
            == seq![trigger],
{
    lemma_combine_round_trip(table, limit, first, trigger, folded);
    let two = seq![first, trigger];
    let three = seq![first, trigger, trigger];
    assert(two.drop_last() =~= seq![first]);
    assert(two.drop_last().drop_last() =~= seq![]);
    assert(three.drop_last() =~= two);
    reveal_with_fuel(rewritten_all, 4);
    reveal_with_fuel(pushed_all, 3);
    assert(rewritten_all(table, seq![], limit, two) == seq![folded]);
    assert(seq![folded].drop_last().push(first) =~= seq![first]);
    assert(pushed(seq![], limit, first) =~= seq![first]);
    if limit == Some(1nat) {
        assert(pushed(seq![first], limit, trigger) =~= seq![trigger]);
    } else {
        assert(pushed(seq![first], limit, trigger) =~= seq![first, trigger]);
    }
}

/// Unmapped pass-through: where the table has no combination of `first`
/// followed by `second`, typing the two into an empty controller calls for
/// no rewrite, and the buffer ends with both, as far as its capacity lets it.
pub proof fn lemma_unmapped_pass_through(
    table: Map<KeyCombination, CombinationTarget>,
    limit: Option<nat>,
    first: char,
    second: char,
)
    requires
        within_limit(seq![], limit),
        !table.contains_key(KeyCombination(first, second)),
    ensures
        rewrite_of(table, seq![], first) == None::<CombinationTarget>,
        rewrite_of(table, rewritten(table, seq![], limit, first), second) == None::<
            CombinationTarget,
        >,
        rewritten_all(table, seq![], limit, seq![first, second]) == pushed_all(
            seq![],
            limit,
            seq![first, second],
        ),
        limit != Some(1nat) ==> rewritten_all(table, seq![], limit, seq![first, second]) == seq![
            first,
            second,
        ],
        limit == Some(1nat) ==> rewritten_all(table, seq![], limit, seq![first, second]) == seq![
            second,
        ],
{
    let two = seq![first, second];
    assert(two.drop_last() =~= seq![first]);
    assert(two.drop_last().drop_last() =~= seq![]);
    reveal_with_fuel(rewritten_all, 3);
    reveal_with_fuel(pushed_all, 3);
    assert(pushed(seq![], limit, first) =~= seq![first]);
    if limit == Some(1nat) {
        assert(pushed(seq![first], limit, second) =~= seq![second]);
    } else {
        assert(pushed(seq![first], limit, second) =~= seq![first, second]);
    }
}

} // verus!
