use tm_syntax::compile::SyntaxDefinition;
use tm_syntax::error::{Error, Halt};
use tm_syntax::ids::RepositoryId;
use tm_syntax::parse;
use tm_syntax::rule::{Rule, RuleIdOrReference};
use tm_syntax::scope::ScopeName;
use tm_syntax::stack::RepositoryStack;
use tm_syntax::text::{find_char, same_text};

fn blank_syntax() -> SyntaxDefinition {
    SyntaxDefinition {
        scope_name: ScopeName("source.test".to_string()),
        rules: vec![],
        regexes: vec![],
        partial_regexes: vec![],
        repositories: vec![],
    }
}

fn matching_rule(regex: &str) -> parse::Rule {
    parse::Rule {
        match_: Some(parse::RegExpString(regex.to_string())),
        ..Default::default()
    }
}

#[test]
fn regexes_get_the_next_id() {
    let mut syntax = blank_syntax();
    let first = syntax.compile_regex(parse::RegExpString("a".to_string())).unwrap();
    let second = syntax.compile_regex(parse::RegExpString("a".to_string())).unwrap();
    assert_eq!(first.get(), 1);
    assert_eq!(second.get(), 2);
    assert_eq!(syntax.regexes.len(), 2);
    assert_eq!(syntax.regexes[1].0, "a");
    let partial = syntax
        .compile_partial_regex(parse::PartialRegExpString("\\1".to_string()))
        .unwrap();
    assert_eq!(partial.get(), 1);
    assert_eq!(syntax.partial_regexes[0].0, "\\1");
    assert!(syntax.rules.is_empty());
}

#[test]
fn a_full_arena_takes_no_more_regexes() {
    let mut syntax = blank_syntax();
    for _ in 0..65535 {
        syntax.compile_regex(parse::RegExpString(String::new())).unwrap();
    }
    assert_eq!(syntax.regexes.len(), 65535);
    let one_more = syntax.compile_regex(parse::RegExpString(String::new()));
    assert!(matches!(one_more, Err(Halt::Exhausted)));
    assert_eq!(syntax.regexes.len(), 65535);
}

#[test]
fn a_rule_takes_the_slot_that_is_free_next() {
    let mut syntax = blank_syntax();
    let first = syntax.compile_rule(RepositoryStack::empty(), matching_rule("a")).unwrap();
    let second = syntax.compile_rule(RepositoryStack::empty(), parse::Rule::default()).unwrap();
    let third = syntax.compile_rule(RepositoryStack::empty(), matching_rule("b")).unwrap();
    assert_eq!((first.get(), second.get(), third.get()), (1, 2, 3));
    assert!(matches!(syntax.rules[0], Some(Rule::MatchRule(_))));
    assert!(matches!(syntax.rules[1], Some(Rule::NoopRule)));
    match syntax.rules[2].as_ref().unwrap() {
        Rule::MatchRule(rule) => {
            assert_eq!(rule.id.get(), 3);
            assert_eq!(rule.match_.get(), 2);
        }
        other => panic!("the rule is {:?}", other),
    }
}

#[test]
fn a_parent_keeps_its_id_while_its_children_are_compiled() {
    let parent = parse::Rule {
        patterns: Some(vec![matching_rule("a"), matching_rule("b")]),
        ..Default::default()
    };
    let mut syntax = blank_syntax();
    let id = syntax.compile_rule(RepositoryStack::empty(), parent).unwrap();
    assert_eq!(id.get(), 1);
    match syntax.rules[0].as_ref().unwrap() {
        Rule::IncludeOnlyRule(rule) => {
            assert_eq!(rule.id.get(), 1);
            let ids: Vec<u16> = rule
                .patterns
                .iter()
                .map(|pattern| match pattern {
                    RuleIdOrReference::RuleId(id) => id.get(),
                    RuleIdOrReference::Reference(_) => 0,
                })
                .collect();
            assert_eq!(ids, vec![2, 3]);
        }
        other => panic!("the rule is {:?}", other),
    }
}

#[test]
fn patterns_are_lowered_in_their_order() {
    let mut syntax = blank_syntax();
    let points_elsewhere = parse::Rule {
        include_: Some(parse::IncludeString("$base".to_string())),
        ..Default::default()
    };
    let patterns = syntax
        .compile_patterns(
            RepositoryStack::empty(),
            vec![matching_rule("a"), points_elsewhere, matching_rule("b")],
        )
        .unwrap();
    assert_eq!(patterns.len(), 3);
    assert!(matches!(patterns[0], RuleIdOrReference::RuleId(id) if id.get() == 1));
    assert!(matches!(patterns[1], RuleIdOrReference::Reference(_)));
    assert!(matches!(patterns[2], RuleIdOrReference::RuleId(id) if id.get() == 2));
    assert!(syntax.compile_patterns(RepositoryStack::empty(), vec![]).unwrap().is_empty());
}

#[test]
fn captures_are_lowered_into_their_slots() {
    let mut syntax = blank_syntax();
    let captures = syntax
        .compile_captures(
            RepositoryStack::empty(),
            parse::Captures(vec![("2".to_string(), matching_rule("a"))]),
        )
        .unwrap()
        .unwrap();
    assert_eq!(captures.0.len(), 3);
    assert!(captures.0[0].is_none());
    assert!(captures.0[1].is_none());
    assert_eq!(captures.0[2].unwrap().get(), 1);
    let none = syntax.compile_captures(RepositoryStack::empty(), parse::Captures(vec![])).unwrap();
    assert!(none.is_none());
}

#[test]
fn a_key_at_the_end_of_usize_does_not_fit() {
    let mut syntax = blank_syntax();
    let captures = syntax.compile_captures(
        RepositoryStack::empty(),
        parse::Captures(vec![(usize::MAX.to_string(), parse::Rule::default())]),
    );
    assert!(matches!(captures, Err(Halt::Exhausted)));
    assert!(syntax.rules.is_empty());
}

#[test]
fn a_repository_is_compiled_under_its_own_id() {
    let mut syntax = blank_syntax();
    let outer = RepositoryStack::empty().push(RepositoryId::from_idx(6)).unwrap();
    let id = syntax
        .compile_repository(
            outer,
            parse::Repository(vec![
                ("a".to_string(), matching_rule("x")),
                ("b".to_string(), parse::Rule::default()),
            ]),
        )
        .unwrap();
    assert_eq!(id.get(), 1);
    let repository = syntax.repositories[0].as_ref().unwrap();
    assert_eq!(repository.rules.len(), 2);
    assert_eq!(repository.rules[0].0 .0, "a");
    assert_eq!(repository.rules[0].1.get(), 1);
    assert_eq!(repository.rules[1].0 .0, "b");
    assert_eq!(repository.rules[1].1.get(), 2);
    match syntax.rules[0].as_ref().unwrap() {
        Rule::MatchRule(rule) => {
            assert_eq!(rule.repository_stack.len(), 2);
            assert_eq!(rule.repository_stack.get(0).unwrap().get(), 7);
            assert_eq!(rule.repository_stack.get(1).unwrap().get(), 1);
        }
        other => panic!("the rule is {:?}", other),
    }
}

#[test]
fn a_full_stack_takes_no_repository() {
    let mut stack = RepositoryStack::empty();
    for position in 0..4 {
        stack = stack.push(RepositoryId::from_idx(position)).unwrap();
    }
    let mut syntax = blank_syntax();
    let compiled = syntax.compile_repository(stack, parse::Repository(vec![]));
    assert!(matches!(compiled, Err(Halt::Error(Error::RepositoryStackOverflow))));
    assert_eq!(syntax.repositories.len(), 1);
}

#[test]
fn texts_are_compared_by_their_characters() {
    assert!(same_text("", ""));
    assert!(same_text("$base", "$base"));
    assert!(!same_text("$base", "$bass"));
    assert!(!same_text("$base", "$bas"));
    assert!(same_text("maß", "maß"));
    assert!(!same_text("mass", "maß"));
}

#[test]
fn a_character_is_found_where_it_stands_first() {
    assert_eq!(find_char("a#b#c", '#'), Some(1));
    assert_eq!(find_char("#", '#'), Some(0));
    assert_eq!(find_char("abc", '#'), None);
    assert_eq!(find_char("", '#'), None);
    assert_eq!(find_char("größe#maß", '#'), Some(5));
}
