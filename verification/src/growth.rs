//! How the arenas grow while a grammar is compiled.
//!
//! Every step only appends slots and fills the slots that it reserved
//! itself. What it leaves behind is settled: every new slot is filled, and
//! every id written anywhere names a slot that exists.

use vstd::prelude::*;
use crate::index::{capture_index, capture_index_or_zero};
use crate::model::{
    fill_captures,
    install_repository,
    install_rule,
    intern_end,
    intern_partial_regex,
    intern_regex,
    lower_begin_end,
    lower_begin_while,
    lower_body,
    lower_captures,
    lower_entries,
    lower_include_only,
    lower_match,
    lower_optional_captures,
    lower_optional_patterns,
    lower_own_repository,
    lower_patterns,
    lower_repository,
    lower_rule,
    max_capture_index,
    reserve_repository,
    reserve_rule,
    Step,
    SyntaxView,
    TreeEntries,
};
use crate::parse::RuleTree;
use crate::reference::reference_of;
use crate::rule::{PatternView, RuleView};
use crate::stack::MAX_REPOSITORY_STACK_DEPTH;

verus! {

/// Whether `id` names one of the first `slots` slots of an arena.
pub open spec fn names_slot(id: nat, slots: nat) -> bool {
    1 <= id <= slots
}

/// Whether `stack` is no deeper than a stack may be and names repositories
/// of `s` only.
pub open spec fn stack_within(stack: Seq<nat>, s: SyntaxView) -> bool {
    &&& stack.len() <= MAX_REPOSITORY_STACK_DEPTH
    &&& forall|i: int| 0 <= i < stack.len() ==> names_slot(#[trigger] stack[i], s.repositories.len())
}

/// Whether every slot of `slots` that is filled names a rule of `s`.
pub open spec fn slots_within(slots: Seq<Option<nat>>, s: SyntaxView) -> bool {
    forall|i: int|
        0 <= i < slots.len() ==> ((#[trigger] slots[i]) matches Some(id) ==> names_slot(
            id,
            s.rules.len(),
        ))
}

/// Whether the captures, where there are any, name rules of `s` only.
pub open spec fn captures_within(captures: Option<Seq<Option<nat>>>, s: SyntaxView) -> bool {
    captures matches Some(slots) ==> slots_within(slots, s)
}

/// Whether every pattern that is a rule names a rule of `s`.
pub open spec fn patterns_within(patterns: Seq<PatternView>, s: SyntaxView) -> bool {
    forall|i: int|
        0 <= i < patterns.len() ==> ((#[trigger] patterns[i]) matches PatternView::RuleId(id)
            ==> names_slot(id, s.rules.len()))
}

/// Whether the patterns, where there are any, name rules of `s` only.
pub open spec fn optional_patterns_within(
    patterns: Option<Seq<PatternView>>,
    s: SyntaxView,
) -> bool {
    patterns matches Some(list) ==> patterns_within(list, s)
}

/// Whether every entry of a repository names a rule of `s`.
pub open spec fn entries_within(entries: Seq<(Seq<char>, nat)>, s: SyntaxView) -> bool {
    forall|i: int| 0 <= i < entries.len() ==> names_slot((#[trigger] entries[i]).1, s.rules.len())
}

/// Whether `rule` can stand in the slot of the rule `id` of `s`: it carries
/// that id, and every id in it names a slot of the arena it points into.
pub open spec fn rule_within(rule: RuleView, id: nat, s: SyntaxView) -> bool {
    match rule {
        RuleView::MatchRule(rule) => {
            &&& rule.id == id
            &&& stack_within(rule.repository_stack, s)
            &&& names_slot(rule.match_, s.regexes.len())
            &&& captures_within(rule.captures, s)
        },
        RuleView::IncludeOnlyRule(rule) => {
            &&& rule.id == id
            &&& stack_within(rule.repository_stack, s)
            &&& patterns_within(rule.patterns, s)
        },
        RuleView::BeginWhileRule(rule) => {
            &&& rule.id == id
            &&& stack_within(rule.repository_stack, s)
            &&& names_slot(rule.begin, s.regexes.len())
            &&& captures_within(rule.begin_captures, s)
            &&& names_slot(rule.while_, s.partial_regexes.len())
            &&& captures_within(rule.while_captures, s)
            &&& optional_patterns_within(rule.patterns, s)
        },
        RuleView::BeginEndRule(rule) => {
            &&& rule.id == id
            &&& stack_within(rule.repository_stack, s)
            &&& names_slot(rule.begin, s.regexes.len())
            &&& captures_within(rule.begin_captures, s)
            &&& (rule.end matches Some(end) ==> names_slot(end, s.partial_regexes.len()))
            &&& captures_within(rule.end_captures, s)
            &&& optional_patterns_within(rule.patterns, s)
        },
        RuleView::NoopRule => true,
    }
}

/// Whether `later` holds all of `earlier` unchanged, and possibly more
/// behind it.
pub open spec fn extends(earlier: SyntaxView, later: SyntaxView) -> bool {
    &&& later.scope_name == earlier.scope_name
    &&& earlier.rules.len() <= later.rules.len()
    &&& forall|i: int| 0 <= i < earlier.rules.len() ==> later.rules[i] == earlier.rules[i]
    &&& earlier.regexes.len() <= later.regexes.len()
    &&& forall|i: int| 0 <= i < earlier.regexes.len() ==> later.regexes[i] == earlier.regexes[i]
    &&& earlier.partial_regexes.len() <= later.partial_regexes.len()
    &&& forall|i: int|
        0 <= i < earlier.partial_regexes.len() ==> later.partial_regexes[i]
            == earlier.partial_regexes[i]
    &&& earlier.repositories.len() <= later.repositories.len()
    &&& forall|i: int|
        0 <= i < earlier.repositories.len() ==> later.repositories[i] == earlier.repositories[i]
}

/// Whether the rule slot at position `i` of `s` is filled with a rule that
/// can stand there.
pub open spec fn rule_settled(s: SyntaxView, i: int) -> bool {
    s.rules[i] matches Some(rule) && rule_within(rule, (i + 1) as nat, s)
}

/// Whether the repository slot at position `i` of `s` is filled with
/// entries that name rules of `s`.
pub open spec fn repository_settled(s: SyntaxView, i: int) -> bool {
    s.repositories[i] matches Some(entries) && entries_within(entries, s)
}

/// Whether every slot of `s` from the given positions on is settled.
pub open spec fn settled_from(s: SyntaxView, rules: nat, repositories: nat) -> bool {
    &&& forall|i: int| rules <= i < s.rules.len() ==> #[trigger] rule_settled(s, i)
    &&& forall|i: int|
        repositories <= i < s.repositories.len() ==> #[trigger] repository_settled(s, i)
}

/// Whether `s` is complete: no slot is absent, every rule carries the id of
/// its own slot, and every id in it names a slot that exists.
pub open spec fn complete(s: SyntaxView) -> bool {
    settled_from(s, 0, 0)
}

/// Whether `later` extends `earlier` by settled slots only.
pub open spec fn settled_extension(earlier: SyntaxView, later: SyntaxView) -> bool {
    &&& extends(earlier, later)
    &&& settled_from(later, earlier.rules.len(), earlier.repositories.len())
}

/// Whether no arena of `later` is shorter than the same arena of `earlier`.
pub open spec fn no_shorter(earlier: SyntaxView, later: SyntaxView) -> bool {
    &&& earlier.rules.len() <= later.rules.len()
    &&& earlier.regexes.len() <= later.regexes.len()
    &&& earlier.partial_regexes.len() <= later.partial_regexes.len()
    &&& earlier.repositories.len() <= later.repositories.len()
}

/// A rule that can stand in arenas can stand in longer ones.
pub proof fn lemma_rule_within_longer(rule: RuleView, id: nat, earlier: SyntaxView, later: SyntaxView)
    requires
        rule_within(rule, id, earlier),
        no_shorter(earlier, later),
    ensures
        rule_within(rule, id, later),
{
}

/// A settled extension of a settled extension is one.
pub proof fn lemma_settled_extension_transitive(a: SyntaxView, b: SyntaxView, c: SyntaxView)
    requires
        settled_extension(a, b),
        settled_extension(b, c),
    ensures
        settled_extension(a, c),
{
    assert forall|i: int| a.rules.len() <= i < c.rules.len() implies #[trigger] rule_settled(
        c,
        i,
    ) by {
        if i < b.rules.len() {
            assert(rule_settled(b, i));
            lemma_rule_within_longer(b.rules[i]->0, (i + 1) as nat, b, c);
        }
    }
    assert forall|i: int|
        a.repositories.len() <= i < c.repositories.len() implies #[trigger] repository_settled(
        c,
        i,
    ) by {
        if i < b.repositories.len() {
            assert(repository_settled(b, i));
        }
    }
}

/// Whether `after` is what a step under `stack` may have made of `s`: it
/// extends `s`, and if `stack` names repositories of `s`, then every slot
/// beyond `s` is settled.
pub open spec fn grows(s: SyntaxView, stack: Seq<nat>, after: SyntaxView) -> bool {
    &&& extends(s, after)
    &&& stack_within(stack, s) ==> settled_from(after, s.rules.len(), s.repositories.len())
}

/// One step after another is a step.
pub proof fn lemma_grows_transitive(
    a: SyntaxView,
    first: Seq<nat>,
    b: SyntaxView,
    second: Seq<nat>,
    c: SyntaxView,
)
    requires
        grows(a, first, b),
        grows(b, second, c),
        stack_within(first, a) ==> stack_within(second, b),
    ensures
        grows(a, first, c),
{
    if stack_within(first, a) {
        lemma_settled_extension_transitive(a, b, c);
    }
}

/// No key contributes more than the largest capture index.
pub proof fn lemma_max_capture_index_bounds(entries: TreeEntries)
    ensures
        forall|i: int|
            0 <= i < entries.len() ==> capture_index_or_zero((#[trigger] entries[i]).0)
                <= max_capture_index(entries),
    decreases entries.len(),
{
    if entries.len() > 0 {
        lemma_max_capture_index_bounds(entries.drop_last());
        assert forall|i: int| 0 <= i < entries.len() implies capture_index_or_zero(
            (#[trigger] entries[i]).0,
        ) <= max_capture_index(entries) by {
            if i < entries.len() - 1 {
                assert(entries.drop_last()[i] == entries[i]);
            }
        }
    }
}

/// The largest capture index is contributed by some key, unless it is 0.
pub proof fn lemma_max_capture_index_attained(entries: TreeEntries)
    ensures
        max_capture_index(entries) == 0 || exists|i: int|
            0 <= i < entries.len() && capture_index_or_zero((#[trigger] entries[i]).0)
                == max_capture_index(entries),
    decreases entries.len(),
{
    if entries.len() > 0 {
        let before = entries.drop_last();
        lemma_max_capture_index_attained(before);
        if max_capture_index(entries) != 0 {
            if capture_index_or_zero(entries.last().0) == max_capture_index(entries) {
                assert(entries[entries.len() - 1] == entries.last());
            } else {
                let i = choose|i: int|
                    0 <= i < before.len() && capture_index_or_zero((#[trigger] before[i]).0)
                        == max_capture_index(before);
                assert(before[i] == entries[i]);
            }
        }
    }
}

/// Dropping the first entry does not raise the largest capture index.
pub proof fn lemma_max_capture_index_rest(entries: TreeEntries)
    requires
        entries.len() > 0,
    ensures
        max_capture_index(entries.drop_first()) <= max_capture_index(entries),
{
    let rest = entries.drop_first();
    lemma_max_capture_index_attained(rest);
    lemma_max_capture_index_bounds(entries);
    if max_capture_index(rest) != 0 {
        let i = choose|i: int|
            0 <= i < rest.len() && capture_index_or_zero((#[trigger] rest[i]).0)
                == max_capture_index(rest);
        assert(rest[i] == entries[i + 1]);
    }
}

/// What holds after a rule was compiled: it took the next free slot, and
/// the arenas have grown.
pub proof fn lemma_lower_rule(s: SyntaxView, stack: Seq<nat>, raw: RuleTree)
    ensures
        lower_rule(s, stack, raw) matches Step::Done(after, id) ==> {
            &&& id == s.rules.len() + 1
            &&& names_slot(id, after.rules.len())
            &&& after.rules[id - 1] is Some
            &&& grows(s, stack, after)
        },
    decreases raw, 2nat,
{
    match reserve_rule(s) {
        None => {},
        Some((reserved, id)) => {
            lemma_lower_body(reserved, stack, id, raw);
            match lower_body(reserved, stack, id, raw) {
                Step::Done(lowered, rule) => {
                    let after = install_rule(lowered, id, rule);
                    if stack_within(stack, s) {
                        lemma_rule_within_longer(rule, id, lowered, after);
                        assert forall|i: int|
                            s.rules.len() <= i < after.rules.len() implies #[trigger] rule_settled(
                            after,
                            i,
                        ) by {
                            if i != id - 1 {
                                assert(rule_settled(lowered, i));
                                lemma_rule_within_longer(
                                    lowered.rules[i]->0,
                                    (i + 1) as nat,
                                    lowered,
                                    after,
                                );
                            }
                        }
                        assert forall|i: int|
                            s.repositories.len() <= i
                                < after.repositories.len() implies #[trigger] repository_settled(
                            after,
                            i,
                        ) by {
                            assert(repository_settled(lowered, i));
                        }
                    }
                },
                _ => {},
            }
        },
    }
}

/// What holds after the body of a rule was lowered: the arenas have grown,
/// and the rule can stand in its slot.
pub proof fn lemma_lower_body(s: SyntaxView, stack: Seq<nat>, id: nat, raw: RuleTree)
    ensures
        lower_body(s, stack, id, raw) matches Step::Done(after, rule) ==> {
            &&& grows(s, stack, after)
            &&& stack_within(stack, s) ==> rule_within(rule, id, after)
        },
    decreases raw, 1nat,
{
    if raw.match_ is Some {
        lemma_lower_match(s, stack, id, raw);
    } else if raw.begin is Some {
        if raw.while_ is Some {
            lemma_lower_begin_while(s, stack, id, raw);
        } else {
            lemma_lower_begin_end(s, stack, id, raw);
        }
    } else {
        lemma_lower_include_only(s, stack, id, raw);
    }
}

/// [`lemma_lower_body`] for a rule with `match`.
pub proof fn lemma_lower_match(s: SyntaxView, stack: Seq<nat>, id: nat, raw: RuleTree)
    ensures
        lower_match(s, stack, id, raw) matches Step::Done(after, rule) ==> {
            &&& grows(s, stack, after)
            &&& stack_within(stack, s) ==> rule_within(rule, id, after)
        },
    decreases raw, 0nat,
{
    match intern_regex(s, raw.match_->0) {
        None => {},
        Some((a1, match_)) => {
            assert(grows(s, stack, a1));
            lemma_lower_optional_captures(a1, stack, raw.captures);
            match lower_optional_captures(a1, stack, raw.captures) {
                Step::Done(a2, captures) => {
                    lemma_grows_transitive(s, stack, a1, stack, a2);
                },
                _ => {},
            }
        },
    }
}

/// [`lemma_lower_body`] for a rule with `begin` and `while`.
pub proof fn lemma_lower_begin_while(s: SyntaxView, stack: Seq<nat>, id: nat, raw: RuleTree)
    ensures
        lower_begin_while(s, stack, id, raw) matches Step::Done(after, rule) ==> {
            &&& grows(s, stack, after)
            &&& stack_within(stack, s) ==> rule_within(rule, id, after)
        },
    decreases raw, 0nat,
{
    match intern_regex(s, raw.begin->0) {
        None => {},
        Some((a1, begin)) => {
            assert(grows(s, stack, a1));
            lemma_lower_optional_captures(a1, stack, raw.begin_captures);
            match lower_optional_captures(a1, stack, raw.begin_captures) {
                Step::Done(a2, begin_captures) => {
                    lemma_grows_transitive(s, stack, a1, stack, a2);
                    match intern_partial_regex(a2, raw.while_->0) {
                        None => {},
                        Some((a3, while_)) => {
                            assert(grows(a2, stack, a3));
                            lemma_grows_transitive(s, stack, a2, stack, a3);
                            lemma_lower_optional_captures(a3, stack, raw.while_captures);
                            match lower_optional_captures(a3, stack, raw.while_captures) {
                                Step::Done(a4, while_captures) => {
                                    lemma_grows_transitive(s, stack, a3, stack, a4);
                                    lemma_lower_optional_patterns(a4, stack, raw.patterns);
                                    match lower_optional_patterns(a4, stack, raw.patterns) {
                                        Step::Done(a5, patterns) => {
                                            lemma_grows_transitive(s, stack, a4, stack, a5);
                                        },
                                        _ => {},
                                    }
                                },
                                _ => {},
                            }
                        },
                    }
                },
                _ => {},
            }
        },
    }
}

/// [`lemma_lower_body`] for a rule with `begin` and no `while`.
pub proof fn lemma_lower_begin_end(s: SyntaxView, stack: Seq<nat>, id: nat, raw: RuleTree)
    ensures
        lower_begin_end(s, stack, id, raw) matches Step::Done(after, rule) ==> {
            &&& grows(s, stack, after)
            &&& stack_within(stack, s) ==> rule_within(rule, id, after)
        },
    decreases raw, 0nat,
{
    match intern_regex(s, raw.begin->0) {
        None => {},
        Some((a1, begin)) => {
            assert(grows(s, stack, a1));
            lemma_lower_optional_captures(a1, stack, raw.begin_captures);
            match lower_optional_captures(a1, stack, raw.begin_captures) {
                Step::Done(a2, begin_captures) => {
                    lemma_grows_transitive(s, stack, a1, stack, a2);
                    match intern_end(a2, raw.end) {
                        None => {},
                        Some((a3, end)) => {
                            assert(grows(a2, stack, a3));
                            lemma_grows_transitive(s, stack, a2, stack, a3);
                            lemma_lower_optional_captures(a3, stack, raw.end_captures);
                            match lower_optional_captures(a3, stack, raw.end_captures) {
                                Step::Done(a4, end_captures) => {
                                    lemma_grows_transitive(s, stack, a3, stack, a4);
                                    lemma_lower_optional_patterns(a4, stack, raw.patterns);
                                    match lower_optional_patterns(a4, stack, raw.patterns) {
                                        Step::Done(a5, patterns) => {
                                            lemma_grows_transitive(s, stack, a4, stack, a5);
                                        },
                                        _ => {},
                                    }
                                },
                                _ => {},
                            }
                        },
                    }
                },
                _ => {},
            }
        },
    }
}

/// What holds after the repository of a grouping rule was compiled: the
/// arenas have grown, and the stack for what stands below the rule names
/// repositories that exist.
pub proof fn lemma_lower_own_repository(
    s: SyntaxView,
    stack: Seq<nat>,
    repository: Option<TreeEntries>,
)
    ensures
        lower_own_repository(s, stack, repository) matches Step::Done(after, inner) ==> {
            &&& grows(s, stack, after)
            &&& stack_within(stack, s) ==> stack_within(inner, after)
        },
    decreases repository, 2nat,
{
    match repository {
        None => {},
        Some(entries) => {
            lemma_lower_repository(s, stack, entries);
        },
    }
}

/// [`lemma_lower_body`] for a rule with neither `match` nor `begin`.
pub proof fn lemma_lower_include_only(s: SyntaxView, stack: Seq<nat>, id: nat, raw: RuleTree)
    ensures
        lower_include_only(s, stack, id, raw) matches Step::Done(after, rule) ==> {
            &&& grows(s, stack, after)
            &&& stack_within(stack, s) ==> rule_within(rule, id, after)
        },
    decreases raw, 0nat,
{
    lemma_lower_own_repository(s, stack, raw.repository);
    match lower_own_repository(s, stack, raw.repository) {
        Step::Done(a1, inner) => {
            match raw.patterns {
                Some(patterns) => {
                    if patterns.len() > 0 {
                        lemma_lower_patterns(a1, inner, patterns, Seq::empty());
                        match lower_patterns(a1, inner, patterns, Seq::empty()) {
                            Step::Done(a2, lowered) => {
                                lemma_grows_transitive(s, stack, a1, inner, a2);
                            },
                            _ => {},
                        }
                    }
                },
                None => {},
            }
        },
        _ => {},
    }
}

/// What holds after the captures of a rule were lowered, where it has any:
/// the arenas have grown, and the captures name rules that exist.
pub proof fn lemma_lower_optional_captures(
    s: SyntaxView,
    stack: Seq<nat>,
    captures: Option<TreeEntries>,
)
    ensures
        lower_optional_captures(s, stack, captures) matches Step::Done(after, lowered) ==> {
            &&& grows(s, stack, after)
            &&& stack_within(stack, s) ==> captures_within(lowered, after)
        },
    decreases captures, 2nat,
{
    match captures {
        None => {},
        Some(entries) => {
            lemma_lower_captures(s, stack, entries);
        },
    }
}

/// What holds after a captures map was lowered: the arenas have grown, the
/// captures name rules that exist, and there is one slot for every index up
/// to the largest that a key spells. Only a map without entries gives no
/// captures.
pub proof fn lemma_lower_captures(s: SyntaxView, stack: Seq<nat>, entries: TreeEntries)
    ensures
        lower_captures(s, stack, entries) matches Step::Done(after, lowered) ==> {
            &&& grows(s, stack, after)
            &&& stack_within(stack, s) ==> captures_within(lowered, after)
            &&& lowered is None <==> entries.len() == 0
            &&& lowered matches Some(slots) ==> slots.len() == max_capture_index(entries) + 1
        },
    decreases entries, 1nat,
{
    if entries.len() > 0 && max_capture_index(entries) < usize::MAX {
        let slots = Seq::new(max_capture_index(entries) + 1, |i: int| None::<nat>);
        lemma_fill_captures(s, stack, entries, slots);
    }
}

/// What holds after the rules of a captures map were compiled into slots
/// that are wide enough: the arenas have grown, and the slots are as many
/// as before and name rules that exist.
pub proof fn lemma_fill_captures(
    s: SyntaxView,
    stack: Seq<nat>,
    entries: TreeEntries,
    slots: Seq<Option<nat>>,
)
    requires
        entries.len() > 0 ==> max_capture_index(entries) < slots.len(),
    ensures
        fill_captures(s, stack, entries, slots) matches Step::Done(after, filled) ==> {
            &&& grows(s, stack, after)
            &&& stack_within(stack, s) && slots_within(slots, s) ==> slots_within(filled, after)
            &&& filled.len() == slots.len()
        },
    decreases entries, 0nat,
{
    if entries.len() > 0 {
        match capture_index(entries.first().0) {
            None => {},
            Some(index) => {
                lemma_lower_rule(s, stack, entries.first().1);
                match lower_rule(s, stack, entries.first().1) {
                    Step::Done(a1, id) => {
                        let rest = entries.drop_first();
                        let written = slots.update(index as int, Some(id));
                        lemma_max_capture_index_bounds(entries);
                        lemma_max_capture_index_rest(entries);
                        assert(entries[0] == entries.first());
                        assert(index < slots.len());
                        if stack_within(stack, s) && slots_within(slots, s) {
                            assert forall|i: int| 0 <= i < written.len() implies ((
                            #[trigger] written[i]) matches Some(rule) ==> names_slot(
                                rule,
                                a1.rules.len(),
                            )) by {
                                if i != index {
                                    assert(written[i] == slots[i]);
                                }
                            }
                        }
                        lemma_fill_captures(a1, stack, rest, written);
                        match fill_captures(a1, stack, rest, written) {
                            Step::Done(after, filled) => {
                                lemma_grows_transitive(s, stack, a1, stack, after);
                            },
                            _ => {},
                        }
                    },
                    _ => {},
                }
            },
        }
    }
}

/// Whether some key of `entries` spells the index `i`.
pub open spec fn spelled(entries: TreeEntries, i: int) -> bool {
    exists|j: int| 0 <= j < entries.len() && capture_index((#[trigger] entries[j]).0) == Some(i as nat)
}

/// Which slots are filled after the rules of a captures map were compiled
/// into slots that are wide enough: those that were filled before, and
/// those whose index a key spells. Every key spells an index.
pub proof fn lemma_fill_captures_presence(
    s: SyntaxView,
    stack: Seq<nat>,
    entries: TreeEntries,
    slots: Seq<Option<nat>>,
)
    requires
        entries.len() > 0 ==> max_capture_index(entries) < slots.len(),
    ensures
        fill_captures(s, stack, entries, slots) matches Step::Done(after, filled) ==> {
            &&& filled.len() == slots.len()
            &&& forall|j: int|
                0 <= j < entries.len() ==> capture_index((#[trigger] entries[j]).0) is Some
            &&& forall|i: int|
                0 <= i < filled.len() ==> ((#[trigger] filled[i]) is Some <==> (slots[i] is Some
                    || spelled(entries, i)))
        },
    decreases entries.len(),
{
    if entries.len() > 0 {
        match capture_index(entries.first().0) {
            None => {},
            Some(index) => {
                match lower_rule(s, stack, entries.first().1) {
                    Step::Done(a1, id) => {
                        let rest = entries.drop_first();
                        let written = slots.update(index as int, Some(id));
                        lemma_max_capture_index_bounds(entries);
                        lemma_max_capture_index_rest(entries);
                        assert(entries[0] == entries.first());
                        assert(index < slots.len());
                        lemma_fill_captures_presence(a1, stack, rest, written);
                        match fill_captures(a1, stack, rest, written) {
                            Step::Done(after, filled) => {
                                assert forall|j: int| 0 <= j < entries.len() implies capture_index(
                                    (#[trigger] entries[j]).0,
                                ) is Some by {
                                    if j > 0 {
                                        assert(rest[j - 1] == entries[j]);
                                    }
                                }
                                assert forall|i: int| 0 <= i < filled.len() implies ((
                                #[trigger] filled[i]) is Some <==> (slots[i] is Some || spelled(
                                    entries,
                                    i,
                                ))) by {
                                    if spelled(rest, i) {
                                        let j = choose|j: int|
                                            0 <= j < rest.len() && capture_index(
                                                (#[trigger] rest[j]).0,
                                            ) == Some(i as nat);
                                        assert(entries[j + 1] == rest[j]);
                                    }
                                    if spelled(entries, i) {
                                        let j = choose|j: int|
                                            0 <= j < entries.len() && capture_index(
                                                (#[trigger] entries[j]).0,
                                            ) == Some(i as nat);
                                        if j > 0 {
                                            assert(rest[j - 1] == entries[j]);
                                        }
                                    }
                                    if i == index {
                                        assert(written[i] is Some);
                                    } else {
                                        assert(written[i] == slots[i]);
                                    }
                                }
                            },
                            _ => {},
                        }
                    },
                    _ => {},
                }
            },
        }
    }
}

/// What holds after the patterns of a rule were lowered, where it has any:
/// the arenas have grown, and the patterns name rules that exist.
pub proof fn lemma_lower_optional_patterns(
    s: SyntaxView,
    stack: Seq<nat>,
    patterns: Option<Seq<RuleTree>>,
)
    ensures
        lower_optional_patterns(s, stack, patterns) matches Step::Done(after, lowered) ==> {
            &&& grows(s, stack, after)
            &&& stack_within(stack, s) ==> optional_patterns_within(lowered, after)
        },
    decreases patterns, 1nat,
{
    match patterns {
        None => {},
        Some(rules) => {
            lemma_lower_patterns(s, stack, rules, Seq::empty());
        },
    }
}

/// What holds after a pattern list was lowered behind `done`: the arenas
/// have grown, and there is one pattern more for every rule of the list,
/// all of which name rules that exist.
pub proof fn lemma_lower_patterns(
    s: SyntaxView,
    stack: Seq<nat>,
    patterns: Seq<RuleTree>,
    done: Seq<PatternView>,
)
    ensures
        lower_patterns(s, stack, patterns, done) matches Step::Done(after, lowered) ==> {
            &&& grows(s, stack, after)
            &&& stack_within(stack, s) && patterns_within(done, s) ==> patterns_within(
                lowered,
                after,
            )
            &&& lowered.len() == done.len() + patterns.len()
        },
    decreases patterns, 0nat,
{
    if patterns.len() > 0 {
        let rest = patterns.drop_first();
        match patterns.first().include_ {
            Some(target) => {
                lemma_lower_patterns(
                    s,
                    stack,
                    rest,
                    done.push(PatternView::Reference(reference_of(target))),
                );
            },
            None => {
                lemma_lower_rule(s, stack, patterns.first());
                match lower_rule(s, stack, patterns.first()) {
                    Step::Done(a1, id) => {
                        let next = done.push(PatternView::RuleId(id));
                        if stack_within(stack, s) && patterns_within(done, s) {
                            assert forall|i: int| 0 <= i < next.len() implies ((
                            #[trigger] next[i]) matches PatternView::RuleId(rule) ==> names_slot(
                                rule,
                                a1.rules.len(),
                            )) by {
                                if i < done.len() {
                                    assert(next[i] == done[i]);
                                }
                            }
                        }
                        lemma_lower_patterns(a1, stack, rest, next);
                        match lower_patterns(a1, stack, rest, next) {
                            Step::Done(after, lowered) => {
                                lemma_grows_transitive(s, stack, a1, stack, after);
                            },
                            _ => {},
                        }
                    },
                    _ => {},
                }
            },
        }
    }
}

/// The patterns that a list gives stand behind `done` in the order of the
/// list: a reference for a rule that points elsewhere, and the id of a rule
/// for any other.
pub proof fn lemma_lower_patterns_order(
    s: SyntaxView,
    stack: Seq<nat>,
    patterns: Seq<RuleTree>,
    done: Seq<PatternView>,
)
    ensures
        lower_patterns(s, stack, patterns, done) matches Step::Done(after, lowered) ==> {
            &&& lowered.len() == done.len() + patterns.len()
            &&& forall|i: int| 0 <= i < done.len() ==> #[trigger] lowered[i] == done[i]
            &&& forall|i: int|
                0 <= i < patterns.len() ==> match (#[trigger] patterns[i]).include_ {
                    Some(target) => lowered[done.len() + i] == PatternView::Reference(
                        reference_of(target),
                    ),
                    None => lowered[done.len() + i] is RuleId,
                }
        },
    decreases patterns.len(),
{
    if patterns.len() > 0 {
        let rest = patterns.drop_first();
        let first = patterns.first();
        match first.include_ {
            Some(target) => {
                let next = done.push(PatternView::Reference(reference_of(target)));
                lemma_lower_patterns_order(s, stack, rest, next);
                match lower_patterns(s, stack, rest, next) {
                    Step::Done(after, lowered) => {
                        assert forall|i: int| 0 <= i < done.len() implies #[trigger] lowered[i]
                            == done[i] by {
                            assert(next[i] == done[i]);
                        }
                        assert forall|i: int| 0 <= i < patterns.len() implies match (
                        #[trigger] patterns[i]).include_ {
                            Some(target) => lowered[done.len() + i] == PatternView::Reference(
                                reference_of(target),
                            ),
                            None => lowered[done.len() + i] is RuleId,
                        } by {
                            if i == 0 {
                                assert(lowered[done.len() as int] == next[done.len() as int]);
                            } else {
                                assert(rest[i - 1] == patterns[i]);
                            }
                        }
                    },
                    _ => {},
                }
            },
            None => {
                match lower_rule(s, stack, first) {
                    Step::Done(a1, id) => {
                        let next = done.push(PatternView::RuleId(id));
                        lemma_lower_patterns_order(a1, stack, rest, next);
                        match lower_patterns(a1, stack, rest, next) {
                            Step::Done(after, lowered) => {
                                assert forall|i: int|
                                    0 <= i < done.len() implies #[trigger] lowered[i]
                                    == done[i] by {
                                    assert(next[i] == done[i]);
                                }
                                assert forall|i: int| 0 <= i < patterns.len() implies match (
                                #[trigger] patterns[i]).include_ {
                                    Some(target) => lowered[done.len() + i]
                                        == PatternView::Reference(reference_of(target)),
                                    None => lowered[done.len() + i] is RuleId,
                                } by {
                                    if i == 0 {
                                        assert(lowered[done.len() as int] == next[done.len() as int]);
                                    } else {
                                        assert(rest[i - 1] == patterns[i]);
                                    }
                                }
                            },
                            _ => {},
                        }
                    },
                    _ => {},
                }
            },
        }
    }
}

/// The entries that the rules of a repository give stand behind `done` in
/// the order of the rules, each under the name of its rule.
pub proof fn lemma_lower_entries_order(
    s: SyntaxView,
    stack: Seq<nat>,
    entries: TreeEntries,
    done: Seq<(Seq<char>, nat)>,
)
    ensures
        lower_entries(s, stack, entries, done) matches Step::Done(after, lowered) ==> {
            &&& lowered.len() == done.len() + entries.len()
            &&& forall|i: int| 0 <= i < done.len() ==> #[trigger] lowered[i] == done[i]
            &&& forall|i: int|
                0 <= i < entries.len() ==> lowered[done.len() + i].0 == (#[trigger] entries[i]).0
        },
    decreases entries.len(),
{
    if entries.len() > 0 {
        let rest = entries.drop_first();
        match lower_rule(s, stack, entries.first().1) {
            Step::Done(a1, id) => {
                let next = done.push((entries.first().0, id));
                lemma_lower_entries_order(a1, stack, rest, next);
                match lower_entries(a1, stack, rest, next) {
                    Step::Done(after, lowered) => {
                        assert forall|i: int| 0 <= i < done.len() implies #[trigger] lowered[i]
                            == done[i] by {
                            assert(next[i] == done[i]);
                        }
                        assert forall|i: int| 0 <= i < entries.len() implies lowered[done.len()
                            + i].0 == (#[trigger] entries[i]).0 by {
                            if i == 0 {
                                assert(lowered[done.len() as int] == next[done.len() as int]);
                            } else {
                                assert(rest[i - 1] == entries[i]);
                            }
                        }
                    },
                    _ => {},
                }
            },
            _ => {},
        }
    }
}

/// What holds after a repository was compiled: it took the next free slot,
/// the stack had room for it, the arenas have grown, and the stack with the
/// repository on top names repositories that exist.
pub proof fn lemma_lower_repository(s: SyntaxView, stack: Seq<nat>, entries: TreeEntries)
    ensures
        lower_repository(s, stack, entries) matches Step::Done(after, id) ==> {
            &&& id == s.repositories.len() + 1
            &&& names_slot(id, after.repositories.len())
            &&& after.repositories[id - 1] is Some
            &&& stack.len() < MAX_REPOSITORY_STACK_DEPTH
            &&& grows(s, stack, after)
            &&& stack_within(stack, s) ==> stack_within(stack.push(id), after)
        },
    decreases entries, 1nat,
{
    match reserve_repository(s) {
        None => {},
        Some((reserved, id)) => {
            if stack.len() < MAX_REPOSITORY_STACK_DEPTH {
                let inner = stack.push(id);
                lemma_lower_entries(reserved, inner, entries, Seq::empty());
                match lower_entries(reserved, inner, entries, Seq::empty()) {
                    Step::Done(lowered, rules) => {
                        let after = install_repository(lowered, id, rules);
                        if stack_within(stack, s) {
                            assert(stack_within(inner, reserved));
                            assert forall|i: int|
                                s.rules.len() <= i
                                    < after.rules.len() implies #[trigger] rule_settled(
                                after,
                                i,
                            ) by {
                                assert(rule_settled(lowered, i));
                                lemma_rule_within_longer(
                                    lowered.rules[i]->0,
                                    (i + 1) as nat,
                                    lowered,
                                    after,
                                );
                            }
                            assert forall|i: int|
                                s.repositories.len() <= i
                                    < after.repositories.len() implies #[trigger] repository_settled(
                                after,
                                i,
                            ) by {
                                if i != id - 1 {
                                    assert(repository_settled(lowered, i));
                                }
                            }
                        }
                    },
                    _ => {},
                }
            }
        },
    }
}

/// What holds after the rules of a repository were compiled behind `done`:
/// the arenas have grown, and there is one entry more for every rule, all
/// of which name rules that exist.
pub proof fn lemma_lower_entries(
    s: SyntaxView,
    stack: Seq<nat>,
    entries: TreeEntries,
    done: Seq<(Seq<char>, nat)>,
)
    ensures
        lower_entries(s, stack, entries, done) matches Step::Done(after, lowered) ==> {
            &&& grows(s, stack, after)
            &&& stack_within(stack, s) && entries_within(done, s) ==> entries_within(
                lowered,
                after,
            )
            &&& lowered.len() == done.len() + entries.len()
        },
    decreases entries, 0nat,
{
    if entries.len() > 0 {
        lemma_lower_rule(s, stack, entries.first().1);
        match lower_rule(s, stack, entries.first().1) {
            Step::Done(a1, id) => {
                let next = done.push((entries.first().0, id));
                if stack_within(stack, s) && entries_within(done, s) {
                    assert forall|i: int| 0 <= i < next.len() implies names_slot(
                        (#[trigger] next[i]).1,
                        a1.rules.len(),
                    ) by {
                        if i < done.len() {
                            assert(next[i] == done[i]);
                        }
                    }
                }
                lemma_lower_entries(a1, stack, entries.drop_first(), next);
                match lower_entries(a1, stack, entries.drop_first(), next) {
                    Step::Done(after, lowered) => {
                        lemma_grows_transitive(s, stack, a1, stack, after);
                    },
                    _ => {},
                }
            },
            _ => {},
        }
    }
}

} // verus!
