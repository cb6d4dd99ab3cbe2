//! Compiled rules and what they are made of.

use vstd::prelude::*;
use crate::ids::{PartialRegexId, RegexId, RuleId};
use crate::reference::{Reference, ReferenceView};
use crate::scope::ScopeName;
use crate::stack::RepositoryStack;

verus! {

/// One entry of a pattern list: a rule of this grammar, or a reference that
/// is still to be resolved.
#[derive(Debug, Clone)]
pub enum RuleIdOrReference {
    RuleId(RuleId),
    Reference(Reference),
}

/// A [`RuleIdOrReference`] over numbers and sequences of characters.
pub ghost enum PatternView {
    RuleId(nat),
    Reference(ReferenceView),
}

impl View for RuleIdOrReference {
    type V = PatternView;

    open spec fn view(&self) -> PatternView {
        match self {
            RuleIdOrReference::RuleId(id) => PatternView::RuleId(id@),
            RuleIdOrReference::Reference(reference) => PatternView::Reference(reference@),
        }
    }
}

impl DeepView for RuleIdOrReference {
    type V = PatternView;

    open spec fn deep_view(&self) -> PatternView {
        self@
    }
}

/// The rules of the capture groups of one regex: the rule of group `n`, if
/// it has one, stands at position `n`.
#[derive(Debug, Clone)]
pub struct Captures(pub Vec<Option<RuleId>>);

impl View for Captures {
    type V = Seq<Option<nat>>;

    open spec fn view(&self) -> Seq<Option<nat>> {
        self.0.deep_view()
    }
}

impl DeepView for Captures {
    type V = Seq<Option<nat>>;

    open spec fn deep_view(&self) -> Seq<Option<nat>> {
        self@
    }
}

/// The rules of one `repository` block, by name.
#[derive(Debug, Clone)]
pub struct Repository {
    pub rules: Vec<(ScopeName, RuleId)>,
}

impl View for Repository {
    type V = Seq<(Seq<char>, nat)>;

    /// The entries in the order in which they were compiled.
    open spec fn view(&self) -> Seq<(Seq<char>, nat)> {
        self.rules.deep_view()
    }
}

impl DeepView for Repository {
    type V = Seq<(Seq<char>, nat)>;

    open spec fn deep_view(&self) -> Seq<(Seq<char>, nat)> {
        self@
    }
}

/// The rule that `entries` holds under `name`: the last one written under
/// it.
pub open spec fn lookup(entries: Seq<(Seq<char>, nat)>, name: Seq<char>) -> Option<nat>
    decreases entries.len(),
{
    if entries.len() == 0 {
        None
    } else if entries.last().0 == name {
        Some(entries.last().1)
    } else {
        lookup(entries.drop_last(), name)
    }
}

/// Whether no two of `entries` stand under the same name.
pub open spec fn distinct_names<T>(entries: Seq<(Seq<char>, T)>) -> bool {
    forall|i: int, j: int|
        0 <= i < j < entries.len() ==> (#[trigger] entries[i]).0 != (#[trigger] entries[j]).0
}

/// Where no two entries stand under the same name, every entry is found
/// under its own.
pub proof fn lemma_lookup_finds_each(entries: Seq<(Seq<char>, nat)>, i: int)
    requires
        distinct_names(entries),
        0 <= i < entries.len(),
    ensures
        lookup(entries, entries[i].0) == Some(entries[i].1),
    decreases entries.len(),
{
    if i < entries.len() - 1 {
        let before = entries.drop_last();
        assert(entries[entries.len() - 1] == entries.last());
        assert(before[i] == entries[i]);
        assert forall|a: int, b: int| 0 <= a < b < before.len() implies (#[trigger] before[a]).0 != (
        #[trigger] before[b]).0 by {
            assert(before[a] == entries[a]);
            assert(before[b] == entries[b]);
        }
        lemma_lookup_finds_each(before, i);
    }
}

impl Repository {
    /// The rule that stands under `name`.
    pub fn get(&self, name: &str) -> (id: Option<RuleId>)
        ensures
            match id {
                Some(id) => lookup(self@, name@) == Some(id@),
                None => lookup(self@, name@) is None,
            },
    {
        let wanted = name.to_owned();
        let mut i: usize = self.rules.len();
        assert(self@.take(i as int) =~= self@);
        while i > 0
            invariant
                i <= self.rules.len(),
                wanted@ == name@,
                lookup(self@, name@) == lookup(self@.take(i as int), name@),
            decreases i,
        {
            i -= 1;
            assert(self@.take(i + 1).drop_last() =~= self@.take(i as int));
            if self.rules[i].0.0 == wanted {
                return Some(self.rules[i].1);
            }
        }
        None
    }
}

/// A rule that matches one regex within a line.
#[derive(Debug, Clone)]
pub struct MatchRule {
    pub id: RuleId,
    pub name: Option<ScopeName>,
    pub repository_stack: RepositoryStack,
    pub match_: RegexId,
    pub captures: Option<Captures>,
}

/// A rule that only groups other rules.
#[derive(Debug, Clone)]
pub struct IncludeOnlyRule {
    pub id: RuleId,
    pub name: Option<ScopeName>,
    pub repository_stack: RepositoryStack,
    pub content_name: Option<ScopeName>,
    pub patterns: Vec<RuleIdOrReference>,
}

/// A rule that opens with `begin` and goes on while `while` matches.
#[derive(Debug, Clone)]
pub struct BeginWhileRule {
    pub id: RuleId,
    pub name: Option<ScopeName>,
    pub repository_stack: RepositoryStack,
    pub content_name: Option<ScopeName>,
    pub begin: RegexId,
    pub begin_captures: Option<Captures>,
    pub while_: PartialRegexId,
    pub while_captures: Option<Captures>,
    pub patterns: Option<Vec<RuleIdOrReference>>,
}

/// A rule that opens with `begin` and closes with `end`, where it has one.
#[derive(Debug, Clone)]
pub struct BeginEndRule {
    pub id: RuleId,
    pub name: Option<ScopeName>,
    pub repository_stack: RepositoryStack,
    pub content_name: Option<ScopeName>,
    pub begin: RegexId,
    pub begin_captures: Option<Captures>,
    pub end: Option<PartialRegexId>,
    pub end_captures: Option<Captures>,
    pub apply_end_pattern_last: bool,
    pub patterns: Option<Vec<RuleIdOrReference>>,
}

/// A compiled rule.
#[derive(Debug, Clone)]
pub enum Rule {
    MatchRule(MatchRule),
    IncludeOnlyRule(IncludeOnlyRule),
    BeginWhileRule(BeginWhileRule),
    BeginEndRule(BeginEndRule),
    /// Stands in the slot of a rule that had nothing to say.
    NoopRule,
}

/// A [`MatchRule`] over numbers and sequences.
pub ghost struct MatchRuleView {
    pub id: nat,
    pub name: Option<Seq<char>>,
    pub repository_stack: Seq<nat>,
    pub match_: nat,
    pub captures: Option<Seq<Option<nat>>>,
}

/// An [`IncludeOnlyRule`] over numbers and sequences.
pub ghost struct IncludeOnlyRuleView {
    pub id: nat,
    pub name: Option<Seq<char>>,
    pub repository_stack: Seq<nat>,
    pub content_name: Option<Seq<char>>,
    pub patterns: Seq<PatternView>,
}

/// A [`BeginWhileRule`] over numbers and sequences.
pub ghost struct BeginWhileRuleView {
    pub id: nat,
    pub name: Option<Seq<char>>,
    pub repository_stack: Seq<nat>,
    pub content_name: Option<Seq<char>>,
    pub begin: nat,
    pub begin_captures: Option<Seq<Option<nat>>>,
    pub while_: nat,
    pub while_captures: Option<Seq<Option<nat>>>,
    pub patterns: Option<Seq<PatternView>>,
}

/// A [`BeginEndRule`] over numbers and sequences.
pub ghost struct BeginEndRuleView {
    pub id: nat,
    pub name: Option<Seq<char>>,
    pub repository_stack: Seq<nat>,
    pub content_name: Option<Seq<char>>,
    pub begin: nat,
    pub begin_captures: Option<Seq<Option<nat>>>,
    pub end: Option<nat>,
    pub end_captures: Option<Seq<Option<nat>>>,
    pub apply_end_pattern_last: bool,
    pub patterns: Option<Seq<PatternView>>,
}

/// A [`Rule`] over numbers and sequences.
pub ghost enum RuleView {
    MatchRule(MatchRuleView),
    IncludeOnlyRule(IncludeOnlyRuleView),
    BeginWhileRule(BeginWhileRuleView),
    BeginEndRule(BeginEndRuleView),
    NoopRule,
}

impl View for MatchRule {
    type V = MatchRuleView;

    open spec fn view(&self) -> MatchRuleView {
        MatchRuleView {
            id: self.id@,
            name: self.name.deep_view(),
            repository_stack: self.repository_stack@,
            match_: self.match_@,
            captures: self.captures.deep_view(),
        }
    }
}

impl View for IncludeOnlyRule {
    type V = IncludeOnlyRuleView;

    open spec fn view(&self) -> IncludeOnlyRuleView {
        IncludeOnlyRuleView {
            id: self.id@,
            name: self.name.deep_view(),
            repository_stack: self.repository_stack@,
            content_name: self.content_name.deep_view(),
            patterns: self.patterns.deep_view(),
        }
    }
}

impl View for BeginWhileRule {
    type V = BeginWhileRuleView;

    open spec fn view(&self) -> BeginWhileRuleView {
        BeginWhileRuleView {
            id: self.id@,
            name: self.name.deep_view(),
            repository_stack: self.repository_stack@,
            content_name: self.content_name.deep_view(),
            begin: self.begin@,
            begin_captures: self.begin_captures.deep_view(),
            while_: self.while_@,
            while_captures: self.while_captures.deep_view(),
            patterns: self.patterns.deep_view(),
        }
    }
}

impl View for BeginEndRule {
    type V = BeginEndRuleView;

    open spec fn view(&self) -> BeginEndRuleView {
        BeginEndRuleView {
            id: self.id@,
            name: self.name.deep_view(),
            repository_stack: self.repository_stack@,
            content_name: self.content_name.deep_view(),
            begin: self.begin@,
            begin_captures: self.begin_captures.deep_view(),
            end: self.end.deep_view(),
            end_captures: self.end_captures.deep_view(),
            apply_end_pattern_last: self.apply_end_pattern_last,
            patterns: self.patterns.deep_view(),
        }
    }
}

impl View for Rule {
    type V = RuleView;

    open spec fn view(&self) -> RuleView {
        match self {
            Rule::MatchRule(rule) => RuleView::MatchRule(rule@),
            Rule::IncludeOnlyRule(rule) => RuleView::IncludeOnlyRule(rule@),
            Rule::BeginWhileRule(rule) => RuleView::BeginWhileRule(rule@),
            Rule::BeginEndRule(rule) => RuleView::BeginEndRule(rule@),
            Rule::NoopRule => RuleView::NoopRule,
        }
    }
}

impl DeepView for Rule {
    type V = RuleView;

    open spec fn deep_view(&self) -> RuleView {
        self@
    }
}

} // verus!
