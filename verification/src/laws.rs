//! What holds of every rule and of every grammar that was compiled.
//!
//! Two more laws stand beside the functions they are about:
//! [`crate::reference::law_render_inverts_parse`] and
//! [`crate::index::law_index_round_trip`].

use vstd::prelude::*;
use crate::growth::{
    complete,
    extends,
    lemma_fill_captures_presence,
    lemma_lower_body,
    lemma_lower_captures,
    lemma_lower_entries,
    lemma_lower_entries_order,
    lemma_lower_patterns_order,
    lemma_lower_repository,
    lemma_lower_rule,
    lemma_max_capture_index_attained,
    lemma_max_capture_index_bounds,
    names_slot,
    repository_settled,
    rule_settled,
    spelled,
};
use crate::index::{capture_index, capture_index_or_zero, law_index_round_trip};
use crate::model::{
    blank,
    install_rule,
    lower_body,
    lower_include_only,
    lower_own_repository,
    lower_captures,
    lower_grammar,
    lower_patterns,
    lower_repository,
    lower_rule,
    max_capture_index,
    reserve_repository,
    reserve_rule,
    root_tree,
    Step,
    SyntaxView,
    TreeEntries,
};
use crate::parse::{indexed_entries, GrammarTree, RuleTree};
use crate::reference::reference_of;
use crate::rule::{distinct_names, lemma_lookup_finds_each, lookup, PatternView, RuleView};
use crate::stack::MAX_REPOSITORY_STACK_DEPTH;

verus! {

/// The kinds of compiled rules.
pub ghost enum Kind {
    Match,
    BeginWhile,
    BeginEnd,
    Group,
}

/// The kind that the fields of `raw` decide: the first of `match`, `begin`
/// with `while`, and `begin` that is present, and a grouping rule where none
/// is.
pub open spec fn kind_of(raw: RuleTree) -> Kind {
    if raw.match_ is Some {
        Kind::Match
    } else if raw.begin is Some {
        if raw.while_ is Some {
            Kind::BeginWhile
        } else {
            Kind::BeginEnd
        }
    } else {
        Kind::Group
    }
}

/// Whether `rule` is of the kind `kind`. A grouping rule with nothing to
/// group is a `NoopRule`.
pub open spec fn is_of_kind(rule: RuleView, kind: Kind) -> bool {
    match kind {
        Kind::Match => rule is MatchRule,
        Kind::BeginWhile => rule is BeginWhileRule,
        Kind::BeginEnd => rule is BeginEndRule,
        Kind::Group => rule is IncludeOnlyRule || rule is NoopRule,
    }
}

/// The stack that `rule` carries. A `NoopRule` carries none, which counts
/// as the empty one.
pub open spec fn repository_stack_of(rule: RuleView) -> Seq<nat> {
    match rule {
        RuleView::MatchRule(rule) => rule.repository_stack,
        RuleView::IncludeOnlyRule(rule) => rule.repository_stack,
        RuleView::BeginWhileRule(rule) => rule.repository_stack,
        RuleView::BeginEndRule(rule) => rule.repository_stack,
        RuleView::NoopRule => Seq::empty(),
    }
}

/// A rule that was compiled stands in the slot that was free next, and that
/// slot holds a rule of the kind that the fields of the rule decide. What
/// stood in the arenas before still stands there.
pub proof fn law_rule_takes_its_slot(s: SyntaxView, stack: Seq<nat>, raw: RuleTree)
    ensures
        lower_rule(s, stack, raw) matches Step::Done(after, id) ==> {
            &&& id == s.rules.len() + 1
            &&& names_slot(id, after.rules.len())
            &&& after.rules[id - 1] matches Some(rule) && is_of_kind(rule, kind_of(raw))
            &&& extends(s, after)
        },
{
    lemma_lower_rule(s, stack, raw);
    match reserve_rule(s) {
        None => {},
        Some((reserved, id)) => {
            lemma_lower_body(reserved, stack, id, raw);
        },
    }
}

/// A rule with `match` compiles to a `MatchRule`, whatever else it has.
pub proof fn law_match_decides(s: SyntaxView, stack: Seq<nat>, raw: RuleTree)
    requires
        raw.match_ is Some,
    ensures
        lower_rule(s, stack, raw) matches Step::Done(after, id) ==> after.rules[id - 1] matches Some(
            rule,
        ) && rule is MatchRule,
{
    law_rule_takes_its_slot(s, stack, raw);
}

/// A rule with `begin` and `while` and without `match` compiles to a
/// `BeginWhileRule`, whatever else it has, an `end` too.
pub proof fn law_begin_while_decides(s: SyntaxView, stack: Seq<nat>, raw: RuleTree)
    requires
        raw.match_ is None,
        raw.begin is Some,
        raw.while_ is Some,
    ensures
        lower_rule(s, stack, raw) matches Step::Done(after, id) ==> after.rules[id - 1] matches Some(
            rule,
        ) && rule is BeginWhileRule,
{
    law_rule_takes_its_slot(s, stack, raw);
}

/// Captures have one slot for every index up to the largest that a key of
/// the map spells, and none beyond. The filled slots are those whose index
/// a key spells. A map without keys gives no captures, and only such a map.
pub proof fn law_captures_shape(s: SyntaxView, stack: Seq<nat>, entries: TreeEntries)
    ensures
        lower_captures(s, stack, entries) matches Step::Done(after, lowered) ==> {
            &&& lowered is None <==> entries.len() == 0
            &&& lowered matches Some(slots) ==> {
                &&& slots.len() == max_capture_index(entries) + 1
                &&& forall|i: int|
                    0 <= i < slots.len() ==> ((#[trigger] slots[i]) is Some <==> spelled(
                        entries,
                        i,
                    ))
            }
        },
{
    lemma_lower_captures(s, stack, entries);
    if entries.len() > 0 && max_capture_index(entries) < usize::MAX {
        let blank_slots = Seq::new(max_capture_index(entries) + 1, |i: int| None::<nat>);
        lemma_fill_captures_presence(s, stack, entries, blank_slots);
    }
}

/// Captures that were written as a sequence of rules have one slot for
/// every rule, and every slot is filled.
pub proof fn law_sequence_captures(s: SyntaxView, stack: Seq<nat>, rules: Seq<RuleTree>)
    requires
        0 < rules.len() <= usize::MAX,
    ensures
        lower_captures(s, stack, indexed_entries(rules)) matches Step::Done(after, lowered)
            ==> lowered matches Some(slots) && slots.len() == rules.len() && forall|i: int|
            0 <= i < slots.len() ==> (#[trigger] slots[i]) is Some,
{
    let entries = indexed_entries(rules);
    assert forall|j: int| 0 <= j < entries.len() implies capture_index(
        (#[trigger] entries[j]).0,
    ) == Some(j as nat) by {
        law_index_round_trip(j as nat);
    }
    lemma_max_capture_index_bounds(entries);
    lemma_max_capture_index_attained(entries);
    assert(capture_index_or_zero(entries[entries.len() - 1].0) == entries.len() - 1);
    assert(max_capture_index(entries) == rules.len() - 1);
    law_captures_shape(s, stack, entries);
    match lower_captures(s, stack, entries) {
        Step::Done(after, lowered) => {
            let slots = lowered->0;
            assert forall|i: int| 0 <= i < slots.len() implies (#[trigger] slots[i]) is Some by {
                assert(capture_index(entries[i].0) == Some(i as nat));
                assert(spelled(entries, i));
            }
        },
        _ => {},
    }
}

/// A pattern list is lowered position by position: a rule that points
/// elsewhere gives the reference it spells, whatever else it has, and any
/// other rule is compiled and gives an id.
pub proof fn law_patterns_follow_the_list(s: SyntaxView, stack: Seq<nat>, patterns: Seq<RuleTree>)
    ensures
        lower_patterns(s, stack, patterns, Seq::empty()) matches Step::Done(after, lowered) ==> {
            &&& lowered.len() == patterns.len()
            &&& forall|i: int|
                0 <= i < patterns.len() ==> match (#[trigger] patterns[i]).include_ {
                    Some(target) => lowered[i] == PatternView::Reference(reference_of(target)),
                    None => lowered[i] is RuleId,
                }
        },
{
    lemma_lower_patterns_order(s, stack, patterns, Seq::empty());
}

/// A compiled repository holds the names of the rules of its block, in
/// their order: names that differ in the block differ in the repository.
pub proof fn law_repository_keeps_names(s: SyntaxView, stack: Seq<nat>, entries: TreeEntries)
    ensures
        lower_repository(s, stack, entries) matches Step::Done(after, id) ==> {
            &&& id == s.repositories.len() + 1
            &&& names_slot(id, after.repositories.len())
            &&& after.repositories[id - 1] matches Some(rules) && rules.len() == entries.len()
                && forall|i: int| 0 <= i < rules.len() ==> (#[trigger] rules[i]).0 == entries[i].0
        },
{
    lemma_lower_repository(s, stack, entries);
    match reserve_repository(s) {
        None => {},
        Some((reserved, id)) => {
            let inner = stack.push(id);
            lemma_lower_entries(reserved, inner, entries, Seq::empty());
            lemma_lower_entries_order(reserved, inner, entries, Seq::empty());
        },
    }
}

/// A repository block in which no name stands twice compiles to a
/// repository in which none does, and every name of the block finds the
/// rule that was compiled for it.
pub proof fn law_repository_is_a_map(s: SyntaxView, stack: Seq<nat>, entries: TreeEntries)
    requires
        distinct_names(entries),
    ensures
        lower_repository(s, stack, entries) matches Step::Done(after, id) ==> after.repositories[id
            - 1] matches Some(rules) && distinct_names(rules) && forall|i: int|
            0 <= i < entries.len() ==> lookup(rules, (#[trigger] entries[i]).0) == Some(rules[i].1),
{
    law_repository_keeps_names(s, stack, entries);
    match lower_repository(s, stack, entries) {
        Step::Done(after, id) => {
            let rules = after.repositories[id - 1]->0;
            assert forall|i: int, j: int| 0 <= i < j < rules.len() implies (#[trigger] rules[i]).0
                != (#[trigger] rules[j]).0 by {
                assert(rules[i].0 == entries[i].0);
                assert(rules[j].0 == entries[j].0);
            }
            assert forall|i: int| 0 <= i < entries.len() implies lookup(
                rules,
                (#[trigger] entries[i]).0,
            ) == Some(rules[i].1) by {
                assert(rules[i].0 == entries[i].0);
                lemma_lookup_finds_each(rules, i);
            }
        },
        _ => {},
    }
}

/// The root rule of a compiled grammar has the id 1 and stands in the first
/// slot. It groups the patterns of the grammar, or is a `NoopRule` where the
/// grammar has no patterns.
pub proof fn law_root_rule(raw: GrammarTree)
    ensures
        lower_grammar(raw) matches Step::Done(syntax, root) ==> {
            &&& root == 1
            &&& syntax.rules.len() >= 1
            &&& match syntax.rules[0] {
                Some(RuleView::IncludeOnlyRule(rule)) => rule.id == 1 && raw.patterns.len() > 0,
                Some(RuleView::NoopRule) => raw.patterns.len() == 0,
                _ => false,
            }
        },
{
    let s = blank(raw.scope_name);
    let stack = Seq::<nat>::empty();
    lemma_lower_rule(s, stack, root_tree(raw));
    match reserve_rule(s) {
        None => {},
        Some((reserved, id)) => {
            lemma_lower_body(reserved, stack, id, root_tree(raw));
        },
    }
}

/// A grammar without patterns and without a repository compiles to one
/// `NoopRule` and nothing else.
pub proof fn law_empty_grammar(raw: GrammarTree)
    requires
        raw.patterns.len() == 0,
        raw.repository is None,
    ensures
        lower_grammar(raw) == Step::Done(
            SyntaxView {
                scope_name: raw.scope_name,
                rules: seq![Some(RuleView::NoopRule)],
                regexes: Seq::empty(),
                partial_regexes: Seq::empty(),
                repositories: Seq::empty(),
            },
            1nat,
        ),
{
    let s = blank(raw.scope_name);
    let stack = Seq::<nat>::empty();
    let root = root_tree(raw);
    let reserved = SyntaxView { rules: s.rules.push(None), ..s };
    assert(reserve_rule(s) == Some((reserved, 1nat)));
    assert(lower_own_repository(reserved, stack, root.repository) == Step::Done(reserved, stack));
    assert(lower_include_only(reserved, stack, 1, root) == Step::Done(
        reserved,
        RuleView::NoopRule,
    ));
    assert(lower_body(reserved, stack, 1, root) == Step::Done(reserved, RuleView::NoopRule));
    assert(install_rule(reserved, 1, RuleView::NoopRule).rules =~= seq![
        Some(RuleView::NoopRule),
    ]);
}

/// In a compiled grammar no slot is left absent: every rule slot holds a
/// rule, and every repository slot holds a repository.
pub proof fn law_every_slot_is_filled(raw: GrammarTree)
    ensures
        lower_grammar(raw) matches Step::Done(syntax, root) ==> {
            &&& forall|i: int| 0 <= i < syntax.rules.len() ==> syntax.rules[i] is Some
            &&& forall|i: int| 0 <= i < syntax.repositories.len() ==> syntax.repositories[i] is Some
        },
{
    law_every_id_names_a_slot(raw);
    match lower_grammar(raw) {
        Step::Done(syntax, root) => {
            assert forall|i: int| 0 <= i < syntax.rules.len() implies syntax.rules[i] is Some by {
                assert(rule_settled(syntax, i));
            }
            assert forall|i: int| 0 <= i < syntax.repositories.len() implies syntax.repositories[i] is Some by {
                assert(repository_settled(syntax, i));
            }
        },
        _ => {},
    }
}

/// In a compiled grammar every id names a slot that exists: the id that a
/// rule carries is that of its own slot, and the ids of its regexes, of its
/// captures and patterns, of the repositories on its stack and of the rules
/// in a repository all lie within the arenas they point into.
pub proof fn law_every_id_names_a_slot(raw: GrammarTree)
    ensures
        lower_grammar(raw) matches Step::Done(syntax, root) ==> complete(syntax),
{
    lemma_lower_rule(blank(raw.scope_name), Seq::empty(), root_tree(raw));
}

/// No rule of a compiled grammar carries a stack of more than four
/// repositories.
pub proof fn law_stacks_are_shallow(raw: GrammarTree)
    ensures
        lower_grammar(raw) matches Step::Done(syntax, root) ==> forall|i: int|
            0 <= i < syntax.rules.len() ==> ((#[trigger] syntax.rules[i]) matches Some(rule)
                ==> repository_stack_of(rule).len() <= MAX_REPOSITORY_STACK_DEPTH),
{
    law_every_id_names_a_slot(raw);
    match lower_grammar(raw) {
        Step::Done(syntax, root) => {
            assert forall|i: int| 0 <= i < syntax.rules.len() implies ((
            #[trigger] syntax.rules[i]) matches Some(rule) ==> repository_stack_of(rule).len()
                <= MAX_REPOSITORY_STACK_DEPTH) by {
                assert(rule_settled(syntax, i));
            }
        },
        _ => {},
    }
}

} // verus!
