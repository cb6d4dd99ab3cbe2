//! The parse tree: a grammar as its author wrote it.
//!
//! A [`Rule`] is one wide record in which every field may be absent; which
//! fields are present decides later what kind of rule it is. Maps of named
//! rules are kept as lists of entries in the order in which they were written.

use vstd::prelude::*;
use crate::index::{decimal_digits, render_index};

verus! {

/// A name that a rule gives to the text it matches, or the name of a grammar.
#[derive(Debug, Clone)]
pub struct ScopeName(pub String);

/// What a rule includes: `$base`, `$self`, `#name`, `scope` or `scope#name`.
#[derive(Debug, Clone)]
pub struct IncludeString(pub String);

/// The source of a regular expression.
#[derive(Debug, Clone)]
pub struct RegExpString(pub String);

/// The source of an `end` or `while` expression, which may refer back to
/// what `begin` captured and is therefore no regular expression of its own.
#[derive(Debug, Clone)]
pub struct PartialRegExpString(pub String);

/// A flag that grammars spell as a boolean or as a number.
#[derive(Debug, Clone)]
pub enum BoolOrNumber {
    Bool(bool),
    Number(u8),
}

/// The rules of one `repository` block, by name. In a block that was read
/// from a JSON object no name stands twice. The rules are compiled in the
/// order in which they stand here.
#[derive(Debug)]
pub struct Repository(pub Vec<(String, Rule)>);

/// The rules of one captures map, by the spelling of the capture index. In
/// a map that was read from a JSON object no key stands twice. The rules
/// are compiled in the order in which they stand here.
#[derive(Debug)]
pub struct Captures(pub Vec<(String, Rule)>);

/// One rule of a grammar.
#[derive(Debug)]
pub struct Rule {
    pub include_: Option<IncludeString>,
    pub name: Option<ScopeName>,
    pub content_name: Option<ScopeName>,
    pub match_: Option<RegExpString>,
    pub captures: Option<Captures>,
    pub begin: Option<RegExpString>,
    pub begin_captures: Option<Captures>,
    pub end: Option<PartialRegExpString>,
    pub end_captures: Option<Captures>,
    pub while_: Option<PartialRegExpString>,
    pub while_captures: Option<Captures>,
    pub patterns: Option<Vec<Rule>>,
    pub repository: Option<Repository>,
    pub apply_end_pattern_last: Option<bool>,
}

/// A whole grammar.
#[derive(Debug)]
pub struct SyntaxDefinition {
    pub scope_name: ScopeName,
    pub patterns: Vec<Rule>,
    pub repository: Option<Repository>,
    pub injections: Option<Vec<(String, Rule)>>,
    pub injection_selector: Option<String>,
    pub inject_to: Option<Vec<String>>,
}

/// A [`Rule`] as a mathematical tree.
pub ghost struct RuleTree {
    pub include_: Option<Seq<char>>,
    pub name: Option<Seq<char>>,
    pub content_name: Option<Seq<char>>,
    pub match_: Option<Seq<char>>,
    pub captures: Option<Seq<(Seq<char>, RuleTree)>>,
    pub begin: Option<Seq<char>>,
    pub begin_captures: Option<Seq<(Seq<char>, RuleTree)>>,
    pub end: Option<Seq<char>>,
    pub end_captures: Option<Seq<(Seq<char>, RuleTree)>>,
    pub while_: Option<Seq<char>>,
    pub while_captures: Option<Seq<(Seq<char>, RuleTree)>>,
    pub patterns: Option<Seq<RuleTree>>,
    pub repository: Option<Seq<(Seq<char>, RuleTree)>>,
    pub apply_end_pattern_last: Option<bool>,
}

/// A [`SyntaxDefinition`] as a mathematical tree.
pub ghost struct GrammarTree {
    pub scope_name: Seq<char>,
    pub patterns: Seq<RuleTree>,
    pub repository: Option<Seq<(Seq<char>, RuleTree)>>,
    pub injections: Option<Seq<(Seq<char>, RuleTree)>>,
    pub injection_selector: Option<Seq<char>>,
    pub inject_to: Option<Seq<Seq<char>>>,
}

impl View for ScopeName {
    type V = Seq<char>;

    open spec fn view(&self) -> Seq<char> {
        self.0@
    }
}

impl View for IncludeString {
    type V = Seq<char>;

    open spec fn view(&self) -> Seq<char> {
        self.0@
    }
}

impl View for RegExpString {
    type V = Seq<char>;

    open spec fn view(&self) -> Seq<char> {
        self.0@
    }
}

impl DeepView for RegExpString {
    type V = Seq<char>;

    open spec fn deep_view(&self) -> Seq<char> {
        self@
    }
}

impl View for PartialRegExpString {
    type V = Seq<char>;

    open spec fn view(&self) -> Seq<char> {
        self.0@
    }
}

impl DeepView for PartialRegExpString {
    type V = Seq<char>;

    open spec fn deep_view(&self) -> Seq<char> {
        self@
    }
}

/// The tree of `rule`.
pub open spec fn tree_of(rule: Rule) -> RuleTree
    decreases rule,
{
    RuleTree {
        include_: match rule.include_ {
            Some(s) => Some(s@),
            None => None,
        },
        name: match rule.name {
            Some(s) => Some(s@),
            None => None,
        },
        content_name: match rule.content_name {
            Some(s) => Some(s@),
            None => None,
        },
        match_: match rule.match_ {
            Some(s) => Some(s@),
            None => None,
        },
        captures: match rule.captures {
            Some(c) => Some(entries_of(c.0@)),
            None => None,
        },
        begin: match rule.begin {
            Some(s) => Some(s@),
            None => None,
        },
        begin_captures: match rule.begin_captures {
            Some(c) => Some(entries_of(c.0@)),
            None => None,
        },
        end: match rule.end {
            Some(s) => Some(s@),
            None => None,
        },
        end_captures: match rule.end_captures {
            Some(c) => Some(entries_of(c.0@)),
            None => None,
        },
        while_: match rule.while_ {
            Some(s) => Some(s@),
            None => None,
        },
        while_captures: match rule.while_captures {
            Some(c) => Some(entries_of(c.0@)),
            None => None,
        },
        patterns: match rule.patterns {
            Some(p) => Some(trees_of(p@)),
            None => None,
        },
        repository: match rule.repository {
            Some(r) => Some(entries_of(r.0@)),
            None => None,
        },
        apply_end_pattern_last: rule.apply_end_pattern_last,
    }
}

/// The trees of `rules`, in their order.
pub open spec fn trees_of(rules: Seq<Rule>) -> Seq<RuleTree>
    decreases rules,
{
    if rules.len() == 0 {
        Seq::empty()
    } else {
        trees_of(rules.drop_last()).push(tree_of(rules.last()))
    }
}

/// The names and trees of `entries`, in their order.
pub open spec fn entries_of(entries: Seq<(String, Rule)>) -> Seq<(Seq<char>, RuleTree)>
    decreases entries,
{
    if entries.len() == 0 {
        Seq::empty()
    } else {
        entries_of(entries.drop_last()).push((entries.last().0@, tree_of(entries.last().1)))
    }
}

/// The views of `strings`, in their order.
pub open spec fn strings_of(strings: Seq<String>) -> Seq<Seq<char>> {
    Seq::new(strings.len(), |i: int| strings[i]@)
}

impl View for Rule {
    type V = RuleTree;

    open spec fn view(&self) -> RuleTree {
        tree_of(*self)
    }
}

impl View for Repository {
    type V = Seq<(Seq<char>, RuleTree)>;

    open spec fn view(&self) -> Seq<(Seq<char>, RuleTree)> {
        entries_of(self.0@)
    }
}

impl View for Captures {
    type V = Seq<(Seq<char>, RuleTree)>;

    open spec fn view(&self) -> Seq<(Seq<char>, RuleTree)> {
        entries_of(self.0@)
    }
}

impl View for SyntaxDefinition {
    type V = GrammarTree;

    open spec fn view(&self) -> GrammarTree {
        GrammarTree {
            scope_name: self.scope_name@,
            patterns: trees_of(self.patterns@),
            repository: match self.repository {
                Some(r) => Some(r@),
                None => None,
            },
            injections: match self.injections {
                Some(entries) => Some(entries_of(entries@)),
                None => None,
            },
            injection_selector: match self.injection_selector {
                Some(s) => Some(s@),
                None => None,
            },
            inject_to: match self.inject_to {
                Some(names) => Some(strings_of(names@)),
                None => None,
            },
        }
    }
}

/// The tree of a rule in which every field is absent.
pub open spec fn empty_tree() -> RuleTree {
    RuleTree {
        include_: None,
        name: None,
        content_name: None,
        match_: None,
        captures: None,
        begin: None,
        begin_captures: None,
        end: None,
        end_captures: None,
        while_: None,
        while_captures: None,
        patterns: None,
        repository: None,
        apply_end_pattern_last: None,
    }
}

/// `trees_of` maps position by position.
pub proof fn lemma_trees_of(rules: Seq<Rule>)
    ensures
        trees_of(rules).len() == rules.len(),
        forall|i: int|
            0 <= i < rules.len() ==> (#[trigger] trees_of(rules)[i]) == tree_of(rules[i]),
    decreases rules.len(),
{
    if rules.len() > 0 {
        lemma_trees_of(rules.drop_last());
    }
}

/// `entries_of` maps position by position.
pub proof fn lemma_entries_of(entries: Seq<(String, Rule)>)
    ensures
        entries_of(entries).len() == entries.len(),
        forall|i: int|
            0 <= i < entries.len() ==> (#[trigger] entries_of(entries)[i]) == (
                entries[i].0@,
                tree_of(entries[i].1),
            ),
    decreases entries.len(),
{
    if entries.len() > 0 {
        lemma_entries_of(entries.drop_last());
    }
}

/// A copy of `rules`.
fn clone_rules(rules: &Vec<Rule>) -> (copy: Vec<Rule>)
    ensures
        trees_of(copy@) == trees_of(rules@),
    decreases rules, 0nat,
{
    let mut copy: Vec<Rule> = Vec::new();
    let mut i: usize = 0;
    while i < rules.len()
        invariant
            i <= rules.len(),
            copy.len() == i,
            forall|j: int| 0 <= j < i ==> tree_of(copy[j]) == tree_of(rules[j]),
        decreases rules.len() - i,
    {
        let rule = clone_rule(&rules[i]);
        copy.push(rule);
        i += 1;
    }
    proof {
        lemma_trees_of(copy@);
        lemma_trees_of(rules@);
        assert(trees_of(copy@) =~= trees_of(rules@));
    }
    copy
}

/// A copy of `entries`.
fn clone_entries(entries: &Vec<(String, Rule)>) -> (copy: Vec<(String, Rule)>)
    ensures
        entries_of(copy@) == entries_of(entries@),
    decreases entries, 0nat,
{
    let mut copy: Vec<(String, Rule)> = Vec::new();
    let mut i: usize = 0;
    while i < entries.len()
        invariant
            i <= entries.len(),
            copy.len() == i,
            forall|j: int|
                0 <= j < i ==> copy[j].0@ == entries[j].0@ && tree_of(copy[j].1) == tree_of(
                    entries[j].1,
                ),
        decreases entries.len() - i,
    {
        let name = entries[i].0.clone();
        let rule = clone_rule(&entries[i].1);
        copy.push((name, rule));
        i += 1;
    }
    proof {
        lemma_entries_of(copy@);
        lemma_entries_of(entries@);
        assert(entries_of(copy@) =~= entries_of(entries@));
    }
    copy
}

/// A copy of `rule`.
fn clone_rule(rule: &Rule) -> (copy: Rule)
    ensures
        copy@ == rule@,
    decreases rule, 1nat,
{
    Rule {
        include_: match &rule.include_ {
            Some(text) => Some(IncludeString(text.0.clone())),
            None => None,
        },
        name: match &rule.name {
            Some(text) => Some(ScopeName(text.0.clone())),
            None => None,
        },
        content_name: match &rule.content_name {
            Some(text) => Some(ScopeName(text.0.clone())),
            None => None,
        },
        match_: match &rule.match_ {
            Some(text) => Some(RegExpString(text.0.clone())),
            None => None,
        },
        captures: match &rule.captures {
            Some(captures) => Some(Captures(clone_entries(&captures.0))),
            None => None,
        },
        begin: match &rule.begin {
            Some(text) => Some(RegExpString(text.0.clone())),
            None => None,
        },
        begin_captures: match &rule.begin_captures {
            Some(captures) => Some(Captures(clone_entries(&captures.0))),
            None => None,
        },
        end: match &rule.end {
            Some(text) => Some(PartialRegExpString(text.0.clone())),
            None => None,
        },
        end_captures: match &rule.end_captures {
            Some(captures) => Some(Captures(clone_entries(&captures.0))),
            None => None,
        },
        while_: match &rule.while_ {
            Some(text) => Some(PartialRegExpString(text.0.clone())),
            None => None,
        },
        while_captures: match &rule.while_captures {
            Some(captures) => Some(Captures(clone_entries(&captures.0))),
            None => None,
        },
        patterns: match &rule.patterns {
            Some(patterns) => Some(clone_rules(patterns)),
            None => None,
        },
        repository: match &rule.repository {
            Some(repository) => Some(Repository(clone_entries(&repository.0))),
            None => None,
        },
        apply_end_pattern_last: rule.apply_end_pattern_last,
    }
}

/// A copy of `strings`.
fn clone_strings(strings: &Vec<String>) -> (copy: Vec<String>)
    ensures
        strings_of(copy@) == strings_of(strings@),
{
    let mut copy: Vec<String> = Vec::new();
    let mut i: usize = 0;
    while i < strings.len()
        invariant
            i <= strings.len(),
            copy.len() == i,
            forall|j: int| 0 <= j < i ==> copy[j]@ == strings[j]@,
        decreases strings.len() - i,
    {
        copy.push(strings[i].clone());
        i += 1;
    }
    assert(strings_of(copy@) =~= strings_of(strings@));
    copy
}

impl Clone for Rule {
    fn clone(&self) -> (copy: Rule)
        ensures
            copy@ == self@,
    {
        clone_rule(self)
    }
}

impl Clone for Repository {
    fn clone(&self) -> (copy: Repository)
        ensures
            copy@ == self@,
    {
        Repository(clone_entries(&self.0))
    }
}

impl Clone for Captures {
    fn clone(&self) -> (copy: Captures)
        ensures
            copy@ == self@,
    {
        Captures(clone_entries(&self.0))
    }
}

impl Clone for SyntaxDefinition {
    fn clone(&self) -> (copy: SyntaxDefinition)
        ensures
            copy@ == self@,
    {
        SyntaxDefinition {
            scope_name: ScopeName(self.scope_name.0.clone()),
            patterns: clone_rules(&self.patterns),
            repository: match &self.repository {
                Some(repository) => Some(Repository(clone_entries(&repository.0))),
                None => None,
            },
            injections: match &self.injections {
                Some(entries) => Some(clone_entries(entries)),
                None => None,
            },
            injection_selector: match &self.injection_selector {
                Some(selector) => Some(selector.clone()),
                None => None,
            },
            inject_to: match &self.inject_to {
                Some(names) => Some(clone_strings(names)),
                None => None,
            },
        }
    }
}

impl Default for Rule {
    /// The rule in which every field is absent.
    fn default() -> (rule: Rule)
        ensures
            rule@ == empty_tree(),
    {
        Rule {
            include_: None,
            name: None,
            content_name: None,
            match_: None,
            captures: None,
            begin: None,
            begin_captures: None,
            end: None,
            end_captures: None,
            while_: None,
            while_captures: None,
            patterns: None,
            repository: None,
            apply_end_pattern_last: None,
        }
    }
}

/// What a decoded `applyEndPatternLast` means: a boolean stands for itself,
/// 0 for `false` and 1 for `true`. Any other number is no flag and is handed
/// back as the error.
pub fn bool_or_number(value: Option<BoolOrNumber>) -> (flag: Result<Option<bool>, u8>)
    ensures
        flag == match value {
            None => Ok::<Option<bool>, u8>(None),
            Some(BoolOrNumber::Bool(b)) => Ok(Some(b)),
            Some(BoolOrNumber::Number(n)) => if n == 0 {
                Ok(Some(false))
            } else if n == 1 {
                Ok(Some(true))
            } else {
                Err(n)
            },
        },
{
    match value {
        None => Ok(None),
        Some(BoolOrNumber::Bool(b)) => Ok(Some(b)),
        Some(BoolOrNumber::Number(0)) => Ok(Some(false)),
        Some(BoolOrNumber::Number(1)) => Ok(Some(true)),
        Some(BoolOrNumber::Number(x)) => Err(x),
    }
}

/// The entries that a captures sequence stands for: the rule at position `i`
/// under the decimal spelling of `i`.
pub open spec fn indexed_entries(rules: Seq<RuleTree>) -> Seq<(Seq<char>, RuleTree)> {
    Seq::new(rules.len(), |i: int| (decimal_digits(i as nat), rules[i]))
}

impl Captures {
    /// Captures that a grammar wrote as a sequence of rules, keyed by
    /// position.
    pub fn from_sequence(rules: Vec<Rule>) -> (captures: Captures)
        ensures
            captures@ == indexed_entries(trees_of(rules@)),
    {
        let ghost all = rules@;
        let mut entries: Vec<(String, Rule)> = Vec::new();
        proof {
            lemma_trees_of(all);
        }
        for rule in it: rules
            invariant
                it.seq() == all,
                entries@.len() == it.index(),
                entries_of(entries@) == indexed_entries(trees_of(all)).take(it.index()),
        {
            let ghost before = entries@;
            let position: usize = entries.len();
            let key = render_index(position);
            entries.push((key, rule));
            proof {
                lemma_trees_of(all);
                assert(entries@.drop_last() =~= before);
                assert(entries_of(entries@) =~= indexed_entries(trees_of(all)).take(
                    it.index() + 1,
                ));
            }
        }
        proof {
            lemma_trees_of(all);
            assert(indexed_entries(trees_of(all)).take(all.len() as int) =~= indexed_entries(
                trees_of(all),
            ));
        }
        Captures(entries)
    }
}

} // verus!
