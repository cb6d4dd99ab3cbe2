//! The compiler: from a parse tree to the four arenas.
//!
//! Every function here computes the function of the same purpose in
//! [`crate::model`] on the views of its arguments, and says so.

use vstd::prelude::*;
use crate::error::{Error, Halt};
use crate::growth::{complete, extends, lemma_lower_rule, lemma_max_capture_index_bounds};
use crate::ids::{PartialRegexId, RegexId, RepositoryId, RuleId, MAX_NARROW_SLOTS, MAX_WIDE_SLOTS};
use crate::index::{capture_index_or_zero, parse_capture_index};
use crate::model::{
    blank,
    fill_captures,
    install_repository,
    intern_partial_regex,
    intern_regex,
    lower_begin_end,
    lower_begin_while,
    lower_body,
    lower_captures,
    lower_entries,
    lower_grammar,
    lower_include_only,
    lower_match,
    lower_own_repository,
    lower_patterns,
    lower_repository,
    lower_rule,
    max_capture_index,
    root_tree,
    Step,
    SyntaxView,
};
use crate::parse;
use crate::parse::{entries_of, lemma_entries_of, lemma_trees_of, trees_of};
use crate::reference::{reference_of, Reference};
use crate::rule::{
    BeginEndRule,
    BeginWhileRule,
    Captures,
    IncludeOnlyRule,
    MatchRule,
    PatternView,
    Repository,
    Rule,
    RuleIdOrReference,
};
use crate::scope::ScopeName;
use crate::stack::RepositoryStack;

verus! {

/// A compiled grammar: rules, regexes, partial regexes and repositories,
/// each kind in an arena of its own, and the scope name of the grammar.
#[derive(Debug, Clone)]
pub struct SyntaxDefinition {
    pub scope_name: ScopeName,
    pub rules: Vec<Option<Rule>>,
    pub regexes: Vec<parse::RegExpString>,
    pub partial_regexes: Vec<parse::PartialRegExpString>,
    pub repositories: Vec<Option<Repository>>,
}

impl View for SyntaxDefinition {
    type V = SyntaxView;

    open spec fn view(&self) -> SyntaxView {
        SyntaxView {
            scope_name: self.scope_name@,
            rules: self.rules.deep_view(),
            regexes: self.regexes.deep_view(),
            partial_regexes: self.partial_regexes.deep_view(),
            repositories: self.repositories.deep_view(),
        }
    }
}

/// Whether what a function gave, and the arenas as it left them, are what
/// the step `step` of the model asks for.
pub open spec fn achieves<T: DeepView>(got: Result<T, Halt>, now: SyntaxView, step: Step<T::V>) -> bool {
    match step {
        Step::Done(after, value) => got matches Ok(given) && given.deep_view() == value && now
            == after,
        Step::Failed(fault) => got matches Err(Halt::Error(error)) && error@ == fault,
        Step::Exhausted => got matches Err(Halt::Exhausted),
    }
}

/// The name of a compiled rule from the name in the parse tree.
fn lower_name(name: Option<parse::ScopeName>) -> (lowered: Option<ScopeName>)
    ensures
        lowered.deep_view() == match name {
            Some(name) => Some(name@),
            None => None,
        },
{
    match name {
        Some(name) => Some(ScopeName::from(name)),
        None => None,
    }
}

impl SyntaxDefinition {
    /// Compiles a grammar. The root rule, which stands for the grammar as a
    /// whole, gets the id 1. A grammar at fault gives the fault that is met
    /// first, and nothing of what was compiled until then.
    ///
    /// The grammar must fit: no arena may need more slots than its ids can
    /// name, and no captures map may hold a key that spells `usize::MAX`.
    /// [`SyntaxDefinition::try_compile`] compiles any grammar and reports
    /// one that does not fit.
    pub fn compile(raw: parse::SyntaxDefinition) -> (compiled: Result<Self, Error>)
        requires
            !(lower_grammar(raw@) is Exhausted),
        ensures
            match lower_grammar(raw@) {
                Step::Done(after, root) => compiled matches Ok(syntax) && syntax@ == after,
                Step::Failed(fault) => compiled matches Err(error) && error@ == fault,
                Step::Exhausted => false,
            },
            compiled matches Ok(syntax) ==> complete(syntax@),
    {
        match Self::try_compile(raw) {
            Ok(syntax) => Ok(syntax),
            Err(Halt::Error(error)) => Err(error),
            Err(Halt::Exhausted) => vstd::pervasive::unreached(),
        }
    }

    /// Compiles a grammar, whether it fits or not: as
    /// [`SyntaxDefinition::compile`] does where the grammar fits, and with
    /// [`Halt::Exhausted`] where it does not.
    pub fn try_compile(raw: parse::SyntaxDefinition) -> (compiled: Result<Self, Halt>)
        ensures
            match lower_grammar(raw@) {
                Step::Done(after, root) => compiled matches Ok(syntax) && syntax@ == after,
                Step::Failed(fault) => compiled matches Err(Halt::Error(error)) && error@
                    == fault,
                Step::Exhausted => compiled matches Err(Halt::Exhausted),
            },
            compiled matches Ok(syntax) ==> complete(syntax@),
    {
        let ghost tree = raw@;
        let mut syntax = SyntaxDefinition {
            scope_name: ScopeName::from(raw.scope_name),
            rules: Vec::new(),
            regexes: Vec::new(),
            partial_regexes: Vec::new(),
            repositories: Vec::new(),
        };
        assert(syntax@ =~= blank(tree.scope_name)) by {
            assert(syntax@.rules =~= Seq::empty());
            assert(syntax@.regexes =~= Seq::empty());
            assert(syntax@.partial_regexes =~= Seq::empty());
            assert(syntax@.repositories =~= Seq::empty());
        }
        let root = parse::Rule {
            patterns: Some(raw.patterns),
            repository: raw.repository,
            ..Default::default()
        };
        assert(root@ == root_tree(tree));
        let root_rule_id = syntax.compile_rule(RepositoryStack::empty(), root)?;
        assert(root_rule_id@ == 1);
        proof {
            lemma_lower_rule(blank(tree.scope_name), Seq::empty(), root_tree(tree));
        }
        Ok(syntax)
    }

    /// Compiles a `repository` block under `repository_stack`.
    pub fn compile_repository(
        &mut self,
        repository_stack: RepositoryStack,
        raw_repository: parse::Repository,
    ) -> (compiled: Result<RepositoryId, Halt>)
        ensures
            achieves(
                compiled,
                final(self)@,
                lower_repository(old(self)@, repository_stack@, raw_repository@),
            ),
            extends(old(self)@, final(self)@),
        decreases raw_repository, 0nat,
    {
        let ghost before = self@;
        if self.repositories.len() >= MAX_NARROW_SLOTS {
            return Err(Halt::Exhausted);
        }
        let new_id = RepositoryId::from_idx(self.repositories.len());

        // the slot is reserved now: the rules below may bring repositories
        // of their own before this one is ready
        self.repositories.push(None);
        let ghost reserved = self@;
        assert(reserved.repositories =~= before.repositories.push(None));

        let new_repository_stack = match repository_stack.push(new_id) {
            Ok(stack) => stack,
            Err(error) => {
                return Err(Halt::Error(error));
            },
        };

        let entries = raw_repository.0;
        let ghost all = entries_of(entries@);
        let mut repository: Vec<(ScopeName, RuleId)> = Vec::new();
        proof {
            assert(all.skip(0) =~= all);
            assert(repository.deep_view() =~= Seq::empty());
        }
        for entry in it: entries
            invariant
                it.seq() == entries@,
                entries == raw_repository.0,
                all == entries_of(entries@),
                before == old(self)@,
                extends(reserved, self@),
                extends(before, reserved),
                lower_entries(reserved, new_repository_stack@, all, Seq::empty()) == lower_entries(
                    self@,
                    new_repository_stack@,
                    all.skip(it.index()),
                    repository.deep_view(),
                ),
                lower_repository(before, repository_stack@, all) == match lower_entries(
                    reserved,
                    new_repository_stack@,
                    all,
                    Seq::empty(),
                ) {
                    Step::Done(lowered, rules) => Step::Done(
                        install_repository(lowered, new_id@, rules),
                        new_id@,
                    ),
                    Step::Failed(fault) => Step::Failed(fault),
                    Step::Exhausted => Step::Exhausted,
                },
        {
            let ghost done = repository.deep_view();
            proof {
                lemma_entries_of(entries@);
                assert(all.skip(it.index()).drop_first() =~= all.skip(it.index() + 1));
            }
            assert(decreases_to!(entries => entries[it.index()]));
            let (name, raw_rule) = entry;
            let id = self.compile_rule(new_repository_stack, raw_rule)?;
            repository.push((ScopeName(name), id));
            assert(repository.deep_view() =~= done.push((name@, id@)));
        }
        let ghost lowered = self@;
        let ghost rules = repository.deep_view();
        proof {
            lemma_entries_of(entries@);
            assert(all.skip(all.len() as int) =~= Seq::empty());
        }
        self.repositories.set(new_id.to_idx(), Some(Repository { rules: repository }));
        assert(self@.repositories =~= lowered.repositories.update(new_id@ - 1, Some(rules)));
        Ok(new_id)
    }

    /// Compiles one rule under `repository_stack`, with everything below
    /// it.
    pub fn compile_rule(&mut self, repository_stack: RepositoryStack, raw_rule: parse::Rule) -> (compiled:
        Result<RuleId, Halt>)
        ensures
            achieves(compiled, final(self)@, lower_rule(old(self)@, repository_stack@, raw_rule@)),
            extends(old(self)@, final(self)@),
        decreases raw_rule, 1nat,
    {
        let ghost tree = raw_rule@;
        let ghost before = self@;
        if self.rules.len() >= MAX_WIDE_SLOTS {
            return Err(Halt::Exhausted);
        }
        let new_id = RuleId::from_idx(self.rules.len());

        // the slot is reserved now: what stands below the rule may bring
        // rules of its own before this one is ready
        self.rules.push(None);
        let ghost reserved = self@;
        assert(reserved.rules =~= before.rules.push(None));

        // the first of `match`, `begin` with `while`, and `begin` decides
        let body = if raw_rule.match_.is_some() {
            self.compile_match_rule(repository_stack, new_id, raw_rule)
        } else if raw_rule.begin.is_some() {
            if raw_rule.while_.is_some() {
                self.compile_begin_while_rule(repository_stack, new_id, raw_rule)
            } else {
                self.compile_begin_end_rule(repository_stack, new_id, raw_rule)
            }
        } else {
            self.compile_include_only_rule(repository_stack, new_id, raw_rule)
        };
        assert(achieves(body, self@, lower_body(reserved, repository_stack@, new_id@, tree)));
        let rule = body?;

        let ghost lowered = self@;
        let ghost installed = rule@;
        self.rules.set(new_id.to_idx(), Some(rule));
        assert(self@.rules =~= lowered.rules.update(new_id@ - 1, Some(installed)));
        Ok(new_id)
    }

    /// Lowers the rule `id`, which has `match`.
    fn compile_match_rule(
        &mut self,
        repository_stack: RepositoryStack,
        id: RuleId,
        raw_rule: parse::Rule,
    ) -> (compiled: Result<Rule, Halt>)
        requires
            raw_rule.match_ is Some,
        ensures
            achieves(
                compiled,
                final(self)@,
                lower_match(old(self)@, repository_stack@, id@, raw_rule@),
            ),
            extends(old(self)@, final(self)@),
        decreases raw_rule, 0nat,
    {
        let match_ = self.compile_regex(raw_rule.match_.unwrap())?;
        let captures = match raw_rule.captures {
            Some(raw_captures) => self.compile_captures(repository_stack, raw_captures)?,
            None => None,
        };
        Ok(
            Rule::MatchRule(
                MatchRule { id, name: lower_name(raw_rule.name), repository_stack, match_, captures },
            ),
        )
    }

    /// Lowers the rule `id`, which has `begin` and `while`.
    fn compile_begin_while_rule(
        &mut self,
        repository_stack: RepositoryStack,
        id: RuleId,
        raw_rule: parse::Rule,
    ) -> (compiled: Result<Rule, Halt>)
        requires
            raw_rule.begin is Some,
            raw_rule.while_ is Some,
        ensures
            achieves(
                compiled,
                final(self)@,
                lower_begin_while(old(self)@, repository_stack@, id@, raw_rule@),
            ),
            extends(old(self)@, final(self)@),
        decreases raw_rule, 0nat,
    {
        let begin = self.compile_regex(raw_rule.begin.unwrap())?;
        let begin_captures = match raw_rule.begin_captures {
            Some(raw_captures) => self.compile_captures(repository_stack, raw_captures)?,
            None => None,
        };
        let while_ = self.compile_partial_regex(raw_rule.while_.unwrap())?;
        let while_captures = match raw_rule.while_captures {
            Some(raw_captures) => self.compile_captures(repository_stack, raw_captures)?,
            None => None,
        };
        let patterns = match raw_rule.patterns {
            Some(raw_patterns) => Some(self.compile_patterns(repository_stack, raw_patterns)?),
            None => None,
        };
        Ok(
            Rule::BeginWhileRule(
                BeginWhileRule {
                    id,
                    name: lower_name(raw_rule.name),
                    repository_stack,
                    content_name: lower_name(raw_rule.content_name),
                    begin,
                    begin_captures,
                    while_,
                    while_captures,
                    patterns,
                },
            ),
        )
    }

    /// Lowers the rule `id`, which has `begin` and no `while`.
    fn compile_begin_end_rule(
        &mut self,
        repository_stack: RepositoryStack,
        id: RuleId,
        raw_rule: parse::Rule,
    ) -> (compiled: Result<Rule, Halt>)
        requires
            raw_rule.begin is Some,
        ensures
            achieves(
                compiled,
                final(self)@,
                lower_begin_end(old(self)@, repository_stack@, id@, raw_rule@),
            ),
            extends(old(self)@, final(self)@),
        decreases raw_rule, 0nat,
    {
        let begin = self.compile_regex(raw_rule.begin.unwrap())?;
        let begin_captures = match raw_rule.begin_captures {
            Some(raw_captures) => self.compile_captures(repository_stack, raw_captures)?,
            None => None,
        };
        let end = match raw_rule.end {
            Some(end) => Some(self.compile_partial_regex(end)?),
            None => None,
        };
        let end_captures = match raw_rule.end_captures {
            Some(raw_captures) => self.compile_captures(repository_stack, raw_captures)?,
            None => None,
        };
        let patterns = match raw_rule.patterns {
            Some(raw_patterns) => Some(self.compile_patterns(repository_stack, raw_patterns)?),
            None => None,
        };
        Ok(
            Rule::BeginEndRule(
                BeginEndRule {
                    id,
                    name: lower_name(raw_rule.name),
                    repository_stack,
                    content_name: lower_name(raw_rule.content_name),
                    begin,
                    begin_captures,
                    end,
                    end_captures,
                    apply_end_pattern_last: match raw_rule.apply_end_pattern_last {
                        Some(flag) => flag,
                        None => false,
                    },
                    patterns,
                },
            ),
        )
    }

    /// Lowers the rule `id`, which has neither `match` nor `begin`.
    fn compile_include_only_rule(
        &mut self,
        repository_stack: RepositoryStack,
        id: RuleId,
        raw_rule: parse::Rule,
    ) -> (compiled: Result<Rule, Halt>)
        ensures
            achieves(
                compiled,
                final(self)@,
                lower_include_only(old(self)@, repository_stack@, id@, raw_rule@),
            ),
            extends(old(self)@, final(self)@),
        decreases raw_rule, 0nat,
    {
        let ghost before = self@;
        let ghost tree = raw_rule@;
        // the rule's own repository is visible from what stands below it
        let inner_stack = match raw_rule.repository {
            Some(raw_repository) => {
                let new_repository_id = self.compile_repository(repository_stack, raw_repository)?;
                match repository_stack.push(new_repository_id) {
                    Ok(stack) => stack,
                    Err(error) => {
                        return Err(Halt::Error(error));
                    },
                }
            },
            None => repository_stack,
        };
        assert(lower_own_repository(before, repository_stack@, tree.repository) == Step::Done(
            self@,
            inner_stack@,
        ));

        // patterns that are present are used as they are, an empty list
        // too; only without them the rule's own target stands for them
        match raw_rule.patterns {
            Some(raw_patterns) => {
                proof {
                    lemma_trees_of(raw_patterns@);
                }
                if raw_patterns.len() == 0 {
                    Ok(Rule::NoopRule)
                } else {
                    let patterns = self.compile_patterns(inner_stack, raw_patterns)?;
                    Ok(
                        Rule::IncludeOnlyRule(
                            IncludeOnlyRule {
                                id,
                                name: lower_name(raw_rule.name),
                                repository_stack: inner_stack,
                                content_name: lower_name(raw_rule.content_name),
                                patterns,
                            },
                        ),
                    )
                }
            },
            None => match raw_rule.include_ {
                Some(target) => {
                    let mut patterns: Vec<RuleIdOrReference> = Vec::new();
                    patterns.push(RuleIdOrReference::Reference(Reference::from(&target)));
                    assert(patterns.deep_view() =~= seq![
                        PatternView::Reference(reference_of(target@)),
                    ]);
                    Ok(
                        Rule::IncludeOnlyRule(
                            IncludeOnlyRule {
                                id,
                                name: lower_name(raw_rule.name),
                                repository_stack: inner_stack,
                                content_name: lower_name(raw_rule.content_name),
                                patterns,
                            },
                        ),
                    )
                },
                None => Ok(Rule::NoopRule),
            },
        }
    }

    /// Compiles a captures map under `repository_stack`.
    pub fn compile_captures(
        &mut self,
        repository_stack: RepositoryStack,
        raw_captures: parse::Captures,
    ) -> (compiled: Result<Option<Captures>, Halt>)
        ensures
            achieves(
                compiled,
                final(self)@,
                lower_captures(old(self)@, repository_stack@, raw_captures@),
            ),
            extends(old(self)@, final(self)@),
        decreases raw_captures, 0nat,
    {
        let ghost before = self@;
        let entries = raw_captures.0;
        let ghost all = entries_of(entries@);
        proof {
            lemma_entries_of(entries@);
        }
        if entries.len() == 0 {
            return Ok(None);
        }
        let mut max_capture: usize = 0;
        let mut seen: usize = 0;
        assert(all.take(0) =~= Seq::empty());
        while seen < entries.len()
            invariant
                seen <= entries.len(),
                all == entries_of(entries@),
                all.len() == entries.len(),
                max_capture == max_capture_index(all.take(seen as int)),
            decreases entries.len() - seen,
        {
            let index: usize = match parse_capture_index(entries[seen].0.as_str()) {
                Ok(index) => index,
                Err(_) => 0,
            };
            proof {
                lemma_entries_of(entries@);
                assert(all.take(seen + 1).drop_last() =~= all.take(seen as int));
                assert(all.take(seen + 1).last() == all[seen as int]);
            }
            if index > max_capture {
                max_capture = index;
            }
            seen += 1;
        }
        assert(all.take(all.len() as int) =~= all);
        if max_capture == usize::MAX {
            return Err(Halt::Exhausted);
        }
        let mut captures: Vec<Option<RuleId>> = vec![None; max_capture + 1];
        let ghost blank_slots = Seq::new((max_capture + 1) as nat, |i: int| None::<nat>);
        assert(captures.deep_view() =~= blank_slots);
        assert(all.skip(0) =~= all);

        for entry in it: entries
            invariant
                it.seq() == entries@,
                entries == raw_captures.0,
                all == entries_of(entries@),
                all.len() == entries.len(),
                before == old(self)@,
                extends(before, self@),
                max_capture == max_capture_index(all),
                captures.len() == max_capture + 1,
                fill_captures(before, repository_stack@, all, blank_slots) == fill_captures(
                    self@,
                    repository_stack@,
                    all.skip(it.index()),
                    captures.deep_view(),
                ),
                lower_captures(before, repository_stack@, all) == match fill_captures(
                    before,
                    repository_stack@,
                    all,
                    blank_slots,
                ) {
                    Step::Done(after, slots) => Step::Done(after, Some(slots)),
                    Step::Failed(fault) => Step::Failed(fault),
                    Step::Exhausted => Step::Exhausted,
                },
        {
            let ghost written = captures.deep_view();
            proof {
                lemma_entries_of(entries@);
                lemma_max_capture_index_bounds(all);
                assert(all.skip(it.index()).drop_first() =~= all.skip(it.index() + 1));
            }
            let (key, raw_rule) = entry;
            let index: usize = match parse_capture_index(key.as_str()) {
                Ok(index) => index,
                Err(source) => {
                    return Err(Halt::Error(Error::UnparseableCaptureIndex { index: key, source }));
                },
            };
            assert(decreases_to!(entries => entries[it.index()]));
            let id = self.compile_rule(repository_stack, raw_rule)?;
            assert(capture_index_or_zero(all[it.index()].0) == index);
            captures.set(index, Some(id));
            assert(captures.deep_view() =~= written.update(index as int, Some(id@)));
        }
        assert(all.skip(all.len() as int) =~= Seq::empty());
        Ok(Some(Captures(captures)))
    }

    /// Compiles a pattern list under `repository_stack`.
    pub fn compile_patterns(
        &mut self,
        repository_stack: RepositoryStack,
        raw_patterns: Vec<parse::Rule>,
    ) -> (compiled: Result<Vec<RuleIdOrReference>, Halt>)
        ensures
            achieves(
                compiled,
                final(self)@,
                lower_patterns(
                    old(self)@,
                    repository_stack@,
                    trees_of(raw_patterns@),
                    Seq::empty(),
                ),
            ),
            extends(old(self)@, final(self)@),
        decreases raw_patterns, 0nat,
    {
        let ghost before = self@;
        let ghost all = trees_of(raw_patterns@);
        let mut patterns: Vec<RuleIdOrReference> = Vec::new();
        proof {
            assert(all.skip(0) =~= all);
            assert(patterns.deep_view() =~= Seq::empty());
        }
        for raw_rule in it: raw_patterns
            invariant
                it.seq() == raw_patterns@,
                all == trees_of(raw_patterns@),
                before == old(self)@,
                extends(before, self@),
                lower_patterns(before, repository_stack@, all, Seq::empty()) == lower_patterns(
                    self@,
                    repository_stack@,
                    all.skip(it.index()),
                    patterns.deep_view(),
                ),
        {
            let ghost done = patterns.deep_view();
            proof {
                lemma_trees_of(raw_patterns@);
                assert(all.skip(it.index()).drop_first() =~= all.skip(it.index() + 1));
            }
            if let Some(target) = raw_rule.include_ {
                // a rule that points elsewhere says nothing else
                patterns.push(RuleIdOrReference::Reference(Reference::from(&target)));
                assert(patterns.deep_view() =~= done.push(
                    PatternView::Reference(reference_of(target@)),
                ));
            } else {
                let rule_id = self.compile_rule(repository_stack, raw_rule)?;
                patterns.push(RuleIdOrReference::RuleId(rule_id));
                assert(patterns.deep_view() =~= done.push(PatternView::RuleId(rule_id@)));
            }
        }
        proof {
            lemma_trees_of(raw_patterns@);
            assert(all.skip(all.len() as int) =~= Seq::empty());
        }
        Ok(patterns)
    }

    /// Appends `regex` to the regexes arena.
    pub fn compile_regex(&mut self, regex: parse::RegExpString) -> (interned: Result<
        RegexId,
        Halt,
    >)
        ensures
            match intern_regex(old(self)@, regex@) {
                Some((after, id)) => interned matches Ok(given) && given@ == id && final(self)@
                    == after,
                None => interned matches Err(Halt::Exhausted) && final(self)@ == old(self)@,
            },
            extends(old(self)@, final(self)@),
    {
        if self.regexes.len() >= MAX_WIDE_SLOTS {
            return Err(Halt::Exhausted);
        }
        let new_id = RegexId::from_idx(self.regexes.len());
        self.regexes.push(regex);
        assert(self@.regexes =~= old(self)@.regexes.push(regex@));
        Ok(new_id)
    }

    /// Appends `regex` to the partial regexes arena.
    pub fn compile_partial_regex(&mut self, regex: parse::PartialRegExpString) -> (interned:
        Result<PartialRegexId, Halt>)
        ensures
            match intern_partial_regex(old(self)@, regex@) {
                Some((after, id)) => interned matches Ok(given) && given@ == id && final(self)@
                    == after,
                None => interned matches Err(Halt::Exhausted) && final(self)@ == old(self)@,
            },
            extends(old(self)@, final(self)@),
    {
        if self.partial_regexes.len() >= MAX_WIDE_SLOTS {
            return Err(Halt::Exhausted);
        }
        let new_id = PartialRegexId::from_idx(self.partial_regexes.len());
        self.partial_regexes.push(regex);
        assert(self@.partial_regexes =~= old(self)@.partial_regexes.push(regex@));
        Ok(new_id)
    }
}

} // verus!
