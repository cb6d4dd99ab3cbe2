//! What compiling means, as a function on mathematical values.
//!
//! A [`SyntaxView`] holds the four arenas as sequences. Every function here
//! takes the arenas as they stand and gives a [`Step`]: the arenas as they
//! stand afterwards together with a result, or the reason why there is none.
//! Ids are 1-based: the id of the slot at position `i` is `i + 1`.

use vstd::prelude::*;
use crate::error::Fault;
use crate::ids::{MAX_NARROW_SLOTS, MAX_WIDE_SLOTS};
use crate::index::{capture_index, capture_index_or_zero};
use crate::parse::{empty_tree, GrammarTree, RuleTree};
use crate::reference::reference_of;
use crate::rule::{
    BeginEndRuleView,
    BeginWhileRuleView,
    IncludeOnlyRuleView,
    MatchRuleView,
    PatternView,
    RuleView,
};
use crate::stack::MAX_REPOSITORY_STACK_DEPTH;

verus! {

/// The entries of a repository or of a captures map in a parse tree.
pub type TreeEntries = Seq<(Seq<char>, RuleTree)>;

/// A compiled grammar, or one in the making, over numbers and sequences.
pub ghost struct SyntaxView {
    pub scope_name: Seq<char>,
    pub rules: Seq<Option<RuleView>>,
    pub regexes: Seq<Seq<char>>,
    pub partial_regexes: Seq<Seq<char>>,
    pub repositories: Seq<Option<Seq<(Seq<char>, nat)>>>,
}

/// How one step of the compilation ends.
pub ghost enum Step<T> {
    /// With the arenas as they now stand, and a result.
    Done(SyntaxView, T),
    /// With a fault of the grammar.
    Failed(Fault),
    /// With no id left to name a further slot, or no `usize` to count a
    /// further capture group.
    Exhausted,
}

/// The grammar of `scope_name` before anything is compiled into it.
pub open spec fn blank(scope_name: Seq<char>) -> SyntaxView {
    SyntaxView {
        scope_name,
        rules: Seq::empty(),
        regexes: Seq::empty(),
        partial_regexes: Seq::empty(),
        repositories: Seq::empty(),
    }
}

/// Appends an absent slot to the rules arena and gives its id.
pub open spec fn reserve_rule(s: SyntaxView) -> Option<(SyntaxView, nat)> {
    if s.rules.len() >= MAX_WIDE_SLOTS {
        None
    } else {
        Some((SyntaxView { rules: s.rules.push(None), ..s }, s.rules.len() + 1))
    }
}

/// Appends an absent slot to the repositories arena and gives its id.
pub open spec fn reserve_repository(s: SyntaxView) -> Option<(SyntaxView, nat)> {
    if s.repositories.len() >= MAX_NARROW_SLOTS {
        None
    } else {
        Some((SyntaxView { repositories: s.repositories.push(None), ..s }, s.repositories.len() + 1))
    }
}

/// Appends `source` to the regexes arena and gives its id.
pub open spec fn intern_regex(s: SyntaxView, source: Seq<char>) -> Option<(SyntaxView, nat)> {
    if s.regexes.len() >= MAX_WIDE_SLOTS {
        None
    } else {
        Some((SyntaxView { regexes: s.regexes.push(source), ..s }, s.regexes.len() + 1))
    }
}

/// Appends `source` to the partial regexes arena and gives its id.
pub open spec fn intern_partial_regex(s: SyntaxView, source: Seq<char>) -> Option<
    (SyntaxView, nat),
> {
    if s.partial_regexes.len() >= MAX_WIDE_SLOTS {
        None
    } else {
        Some(
            (
                SyntaxView { partial_regexes: s.partial_regexes.push(source), ..s },
                s.partial_regexes.len() + 1,
            ),
        )
    }
}

/// Fills the slot of the rule `id`.
pub open spec fn install_rule(s: SyntaxView, id: nat, rule: RuleView) -> SyntaxView {
    SyntaxView { rules: s.rules.update(id - 1, Some(rule)), ..s }
}

/// Fills the slot of the repository `id`.
pub open spec fn install_repository(
    s: SyntaxView,
    id: nat,
    entries: Seq<(Seq<char>, nat)>,
) -> SyntaxView {
    SyntaxView { repositories: s.repositories.update(id - 1, Some(entries)), ..s }
}

/// The largest capture index among the keys of `entries`; a key that spells
/// no index counts as 0.
pub open spec fn max_capture_index(entries: TreeEntries) -> nat
    decreases entries.len(),
{
    if entries.len() == 0 {
        0
    } else {
        let before = max_capture_index(entries.drop_last());
        let last = capture_index_or_zero(entries.last().0);
        if last > before {
            last
        } else {
            before
        }
    }
}

/// Compiles one rule: reserves its slot, lowers what the rule says, with
/// everything below it, and fills the slot. Gives the id of the slot.
pub open spec fn lower_rule(s: SyntaxView, stack: Seq<nat>, raw: RuleTree) -> Step<nat>
    decreases raw, 2nat,
{
    match reserve_rule(s) {
        None => Step::Exhausted,
        Some((reserved, id)) => match lower_body(reserved, stack, id, raw) {
            Step::Done(lowered, rule) => Step::Done(install_rule(lowered, id, rule), id),
            Step::Failed(fault) => Step::Failed(fault),
            Step::Exhausted => Step::Exhausted,
        },
    }
}

/// Lowers what the rule `id` says. The first of `match`, `begin` with
/// `while`, and `begin` that is present decides the kind; a rule with none
/// of them only groups other rules.
pub open spec fn lower_body(s: SyntaxView, stack: Seq<nat>, id: nat, raw: RuleTree) -> Step<
    RuleView,
>
    decreases raw, 1nat,
{
    if raw.match_ is Some {
        lower_match(s, stack, id, raw)
    } else if raw.begin is Some {
        if raw.while_ is Some {
            lower_begin_while(s, stack, id, raw)
        } else {
            lower_begin_end(s, stack, id, raw)
        }
    } else {
        lower_include_only(s, stack, id, raw)
    }
}

/// Lowers a rule with `match`: the regex, then the captures.
pub open spec fn lower_match(s: SyntaxView, stack: Seq<nat>, id: nat, raw: RuleTree) -> Step<
    RuleView,
>
    recommends
        raw.match_ is Some,
    decreases raw, 0nat,
{
    match intern_regex(s, raw.match_->0) {
        None => Step::Exhausted,
        Some((a1, match_)) => match lower_optional_captures(a1, stack, raw.captures) {
            Step::Done(a2, captures) => Step::Done(
                a2,
                RuleView::MatchRule(
                    MatchRuleView { id, name: raw.name, repository_stack: stack, match_, captures },
                ),
            ),
            Step::Failed(fault) => Step::Failed(fault),
            Step::Exhausted => Step::Exhausted,
        },
    }
}

/// Lowers a rule with `begin` and `while`: the one, its captures, the other,
/// its captures, then the patterns.
pub open spec fn lower_begin_while(
    s: SyntaxView,
    stack: Seq<nat>,
    id: nat,
    raw: RuleTree,
) -> Step<RuleView>
    recommends
        raw.begin is Some,
        raw.while_ is Some,
    decreases raw, 0nat,
{
    match intern_regex(s, raw.begin->0) {
        None => Step::Exhausted,
        Some((a1, begin)) => match lower_optional_captures(a1, stack, raw.begin_captures) {
            Step::Done(a2, begin_captures) => match intern_partial_regex(a2, raw.while_->0) {
                None => Step::Exhausted,
                Some((a3, while_)) => match lower_optional_captures(a3, stack, raw.while_captures) {
                    Step::Done(a4, while_captures) => match lower_optional_patterns(
                        a4,
                        stack,
                        raw.patterns,
                    ) {
                        Step::Done(a5, patterns) => Step::Done(
                            a5,
                            RuleView::BeginWhileRule(
                                BeginWhileRuleView {
                                    id,
                                    name: raw.name,
                                    repository_stack: stack,
                                    content_name: raw.content_name,
                                    begin,
                                    begin_captures,
                                    while_,
                                    while_captures,
                                    patterns,
                                },
                            ),
                        ),
                        Step::Failed(fault) => Step::Failed(fault),
                        Step::Exhausted => Step::Exhausted,
                    },
                    Step::Failed(fault) => Step::Failed(fault),
                    Step::Exhausted => Step::Exhausted,
                },
            },
            Step::Failed(fault) => Step::Failed(fault),
            Step::Exhausted => Step::Exhausted,
        },
    }
}

/// Interns `end` where the rule has one.
pub open spec fn intern_end(s: SyntaxView, end: Option<Seq<char>>) -> Option<
    (SyntaxView, Option<nat>),
> {
    match end {
        None => Some((s, None)),
        Some(source) => match intern_partial_regex(s, source) {
            None => None,
            Some((a1, id)) => Some((a1, Some(id))),
        },
    }
}

/// Lowers a rule with `begin` and no `while`: `begin`, its captures, `end`
/// where there is one, its captures, then the patterns.
pub open spec fn lower_begin_end(s: SyntaxView, stack: Seq<nat>, id: nat, raw: RuleTree) -> Step<
    RuleView,
>
    recommends
        raw.begin is Some,
    decreases raw, 0nat,
{
    match intern_regex(s, raw.begin->0) {
        None => Step::Exhausted,
        Some((a1, begin)) => match lower_optional_captures(a1, stack, raw.begin_captures) {
            Step::Done(a2, begin_captures) => match intern_end(a2, raw.end) {
                None => Step::Exhausted,
                Some((a3, end)) => match lower_optional_captures(a3, stack, raw.end_captures) {
                    Step::Done(a4, end_captures) => match lower_optional_patterns(
                        a4,
                        stack,
                        raw.patterns,
                    ) {
                        Step::Done(a5, patterns) => Step::Done(
                            a5,
                            RuleView::BeginEndRule(
                                BeginEndRuleView {
                                    id,
                                    name: raw.name,
                                    repository_stack: stack,
                                    content_name: raw.content_name,
                                    begin,
                                    begin_captures,
                                    end,
                                    end_captures,
                                    apply_end_pattern_last: raw.apply_end_pattern_last == Some(
                                        true,
                                    ),
                                    patterns,
                                },
                            ),
                        ),
                        Step::Failed(fault) => Step::Failed(fault),
                        Step::Exhausted => Step::Exhausted,
                    },
                    Step::Failed(fault) => Step::Failed(fault),
                    Step::Exhausted => Step::Exhausted,
                },
            },
            Step::Failed(fault) => Step::Failed(fault),
            Step::Exhausted => Step::Exhausted,
        },
    }
}

/// The stack for what stands below a grouping rule: the rule's own
/// repository, compiled, on top of the stack of the rule.
pub open spec fn lower_own_repository(
    s: SyntaxView,
    stack: Seq<nat>,
    repository: Option<TreeEntries>,
) -> Step<Seq<nat>>
    decreases repository, 2nat,
{
    match repository {
        None => Step::Done(s, stack),
        Some(entries) => match lower_repository(s, stack, entries) {
            Step::Done(a1, id) => Step::Done(a1, stack.push(id)),
            Step::Failed(fault) => Step::Failed(fault),
            Step::Exhausted => Step::Exhausted,
        },
    }
}

/// Lowers a rule that has neither `match` nor `begin`: its own repository
/// first, then its patterns. Without patterns the one `include` of the rule
/// stands for them. A rule that is left with no pattern at all is a
/// `NoopRule`.
pub open spec fn lower_include_only(
    s: SyntaxView,
    stack: Seq<nat>,
    id: nat,
    raw: RuleTree,
) -> Step<RuleView>
    decreases raw, 0nat,
{
    match lower_own_repository(s, stack, raw.repository) {
        Step::Done(a1, inner) => match raw.patterns {
            Some(patterns) => if patterns.len() == 0 {
                Step::Done(a1, RuleView::NoopRule)
            } else {
                match lower_patterns(a1, inner, patterns, Seq::empty()) {
                    Step::Done(a2, lowered) => Step::Done(
                        a2,
                        RuleView::IncludeOnlyRule(
                            IncludeOnlyRuleView {
                                id,
                                name: raw.name,
                                repository_stack: inner,
                                content_name: raw.content_name,
                                patterns: lowered,
                            },
                        ),
                    ),
                    Step::Failed(fault) => Step::Failed(fault),
                    Step::Exhausted => Step::Exhausted,
                }
            },
            None => match raw.include_ {
                Some(target) => Step::Done(
                    a1,
                    RuleView::IncludeOnlyRule(
                        IncludeOnlyRuleView {
                            id,
                            name: raw.name,
                            repository_stack: inner,
                            content_name: raw.content_name,
                            patterns: seq![PatternView::Reference(reference_of(target))],
                        },
                    ),
                ),
                None => Step::Done(a1, RuleView::NoopRule),
            },
        },
        Step::Failed(fault) => Step::Failed(fault),
        Step::Exhausted => Step::Exhausted,
    }
}

/// Lowers a captures map where the rule has one.
pub open spec fn lower_optional_captures(
    s: SyntaxView,
    stack: Seq<nat>,
    captures: Option<TreeEntries>,
) -> Step<Option<Seq<Option<nat>>>>
    decreases captures, 2nat,
{
    match captures {
        None => Step::Done(s, None),
        Some(entries) => lower_captures(s, stack, entries),
    }
}

/// Lowers a captures map to a sequence with one slot for every index up to
/// the largest that a key spells. A map without entries gives no sequence.
pub open spec fn lower_captures(s: SyntaxView, stack: Seq<nat>, entries: TreeEntries) -> Step<
    Option<Seq<Option<nat>>>,
>
    decreases entries, 1nat,
{
    if entries.len() == 0 {
        Step::Done(s, None)
    } else if max_capture_index(entries) >= usize::MAX {
        Step::Exhausted
    } else {
        match fill_captures(
            s,
            stack,
            entries,
            Seq::new(max_capture_index(entries) + 1, |i: int| None),
        ) {
            Step::Done(a1, slots) => Step::Done(a1, Some(slots)),
            Step::Failed(fault) => Step::Failed(fault),
            Step::Exhausted => Step::Exhausted,
        }
    }
}

/// Compiles the rules of `entries` in their order and writes each id into
/// the slot that its key spells. The first key that spells no index is a
/// fault. A later entry overwrites an earlier one of the same index.
pub open spec fn fill_captures(
    s: SyntaxView,
    stack: Seq<nat>,
    entries: TreeEntries,
    slots: Seq<Option<nat>>,
) -> Step<Seq<Option<nat>>>
    decreases entries, 0nat,
{
    if entries.len() == 0 {
        Step::Done(s, slots)
    } else {
        match capture_index(entries.first().0) {
            None => Step::Failed(Fault::UnparseableCaptureIndex { index: entries.first().0 }),
            Some(index) => match lower_rule(s, stack, entries.first().1) {
                Step::Done(a1, id) => fill_captures(
                    a1,
                    stack,
                    entries.drop_first(),
                    slots.update(index as int, Some(id)),
                ),
                Step::Failed(fault) => Step::Failed(fault),
                Step::Exhausted => Step::Exhausted,
            },
        }
    }
}

/// Lowers a pattern list where the rule has one.
pub open spec fn lower_optional_patterns(
    s: SyntaxView,
    stack: Seq<nat>,
    patterns: Option<Seq<RuleTree>>,
) -> Step<Option<Seq<PatternView>>>
    decreases patterns, 1nat,
{
    match patterns {
        None => Step::Done(s, None),
        Some(rules) => match lower_patterns(s, stack, rules, Seq::empty()) {
            Step::Done(a1, lowered) => Step::Done(a1, Some(lowered)),
            Step::Failed(fault) => Step::Failed(fault),
            Step::Exhausted => Step::Exhausted,
        },
    }
}

/// Lowers the rules of a pattern list in their order and appends what they
/// give to `done`. A rule with an `include` gives the reference and nothing
/// else of it is looked at; any other rule is compiled and gives its id.
pub open spec fn lower_patterns(
    s: SyntaxView,
    stack: Seq<nat>,
    patterns: Seq<RuleTree>,
    done: Seq<PatternView>,
) -> Step<Seq<PatternView>>
    decreases patterns, 0nat,
{
    if patterns.len() == 0 {
        Step::Done(s, done)
    } else {
        match patterns.first().include_ {
            Some(target) => lower_patterns(
                s,
                stack,
                patterns.drop_first(),
                done.push(PatternView::Reference(reference_of(target))),
            ),
            None => match lower_rule(s, stack, patterns.first()) {
                Step::Done(a1, id) => lower_patterns(
                    a1,
                    stack,
                    patterns.drop_first(),
                    done.push(PatternView::RuleId(id)),
                ),
                Step::Failed(fault) => Step::Failed(fault),
                Step::Exhausted => Step::Exhausted,
            },
        }
    }
}

/// Compiles a `repository` block: reserves its slot, puts its id on the
/// stack, compiles its rules under that stack and fills the slot with their
/// names and ids. Gives the id of the slot. A stack that is full already is
/// a fault.
pub open spec fn lower_repository(s: SyntaxView, stack: Seq<nat>, entries: TreeEntries) -> Step<
    nat,
>
    decreases entries, 1nat,
{
    match reserve_repository(s) {
        None => Step::Exhausted,
        Some((reserved, id)) => if stack.len() >= MAX_REPOSITORY_STACK_DEPTH {
            Step::Failed(Fault::RepositoryStackOverflow)
        } else {
            match lower_entries(reserved, stack.push(id), entries, Seq::empty()) {
                Step::Done(lowered, rules) => Step::Done(
                    install_repository(lowered, id, rules),
                    id,
                ),
                Step::Failed(fault) => Step::Failed(fault),
                Step::Exhausted => Step::Exhausted,
            }
        },
    }
}

/// Compiles the rules of a repository in their order and appends each name
/// with the id of its rule to `done`.
pub open spec fn lower_entries(
    s: SyntaxView,
    stack: Seq<nat>,
    entries: TreeEntries,
    done: Seq<(Seq<char>, nat)>,
) -> Step<Seq<(Seq<char>, nat)>>
    decreases entries, 0nat,
{
    if entries.len() == 0 {
        Step::Done(s, done)
    } else {
        match lower_rule(s, stack, entries.first().1) {
            Step::Done(a1, id) => lower_entries(
                a1,
                stack,
                entries.drop_first(),
                done.push((entries.first().0, id)),
            ),
            Step::Failed(fault) => Step::Failed(fault),
            Step::Exhausted => Step::Exhausted,
        }
    }
}

/// The rule that stands for a whole grammar: its patterns and its
/// repository, and nothing else.
pub open spec fn root_tree(raw: GrammarTree) -> RuleTree {
    RuleTree { patterns: Some(raw.patterns), repository: raw.repository, ..empty_tree() }
}

/// Compiles a grammar: its root rule, under an empty stack, into blank
/// arenas. Gives the id of the root rule.
pub open spec fn lower_grammar(raw: GrammarTree) -> Step<nat> {
    lower_rule(blank(raw.scope_name), Seq::empty(), root_tree(raw))
}

} // verus!
