use tm_syntax::compile::SyntaxDefinition;
use tm_syntax::error::{Error, Halt};
use tm_syntax::parse;
use tm_syntax::reference::Reference;
use tm_syntax::rule::{Rule, RuleIdOrReference};

fn blank_rule() -> parse::Rule {
    parse::Rule::default()
}

fn including(target: &str) -> parse::Rule {
    parse::Rule {
        include_: Some(parse::IncludeString(target.to_string())),
        ..Default::default()
    }
}

fn matching(regex: &str) -> parse::Rule {
    parse::Rule {
        match_: Some(parse::RegExpString(regex.to_string())),
        ..Default::default()
    }
}

fn grammar(patterns: Vec<parse::Rule>, repository: Option<parse::Repository>) -> parse::SyntaxDefinition {
    parse::SyntaxDefinition {
        scope_name: parse::ScopeName("source.test".to_string()),
        patterns,
        repository,
        injections: None,
        injection_selector: None,
        inject_to: None,
    }
}

fn relative_target(pattern: &RuleIdOrReference) -> Option<&str> {
    match pattern {
        RuleIdOrReference::Reference(Reference::Relative { rule }) => Some(rule.0.as_str()),
        _ => None,
    }
}

#[test]
fn can_compile_simple_syntax() {
    let include_digits = parse::Rule {
        include_: Some(parse::IncludeString("#digits".to_string())),
        ..Default::default()
    };
    let include_ws = parse::Rule {
        include_: Some(parse::IncludeString("#whitespace".to_string())),
        ..Default::default()
    };

    let rule_digits = parse::Rule {
        match_: Some(parse::RegExpString("\\d+".to_string())),
        name: Some(parse::ScopeName("digits".to_string())),
        ..Default::default()
    };
    let rule_ws = parse::Rule {
        begin: Some(parse::RegExpString("\\s".to_string())),
        end: Some(parse::PartialRegExpString("\\S".to_string())),
        name: Some(parse::ScopeName("whitespace".to_string())),
        ..Default::default()
    };

    let repository = parse::Repository(vec![
        ("digits".to_string(), rule_digits),
        ("whitespace".to_string(), rule_ws),
    ]);

    let parsed_syntax = parse::SyntaxDefinition {
        scope_name: parse::ScopeName("source.simple".to_string()),
        patterns: vec![include_digits, include_ws],
        repository: Some(repository),
        injections: None,
        injection_selector: None,
        inject_to: None,
    };

    let compiled_syntax = SyntaxDefinition::compile(parsed_syntax).unwrap();

    assert_eq!(compiled_syntax.scope_name.0, "source.simple");
    let regexes: Vec<&str> = compiled_syntax.regexes.iter().map(|r| r.0.as_str()).collect();
    assert_eq!(regexes, vec!["\\d+", "\\s"]);
    let partial: Vec<&str> = compiled_syntax.partial_regexes.iter().map(|r| r.0.as_str()).collect();
    assert_eq!(partial, vec!["\\S"]);

    assert_eq!(compiled_syntax.repositories.len(), 1);
    let repository = compiled_syntax.repositories[0].as_ref().unwrap();
    assert_eq!(repository.rules.len(), 2);
    assert_eq!(repository.get("digits").unwrap().get(), 2);
    assert_eq!(repository.get("whitespace").unwrap().get(), 3);
    assert!(repository.get("letters").is_none());

    assert_eq!(compiled_syntax.rules.len(), 3);
    match compiled_syntax.rules[0].as_ref().unwrap() {
        Rule::IncludeOnlyRule(root) => {
            assert_eq!(root.id.get(), 1);
            assert!(root.name.is_none());
            assert_eq!(root.repository_stack.len(), 1);
            assert_eq!(root.repository_stack.get(0).unwrap().get(), 1);
            assert_eq!(root.patterns.len(), 2);
            assert_eq!(relative_target(&root.patterns[0]), Some("digits"));
            assert_eq!(relative_target(&root.patterns[1]), Some("whitespace"));
        }
        other => panic!("the root is {:?}", other),
    }
    match compiled_syntax.rules[1].as_ref().unwrap() {
        Rule::MatchRule(digits) => {
            assert_eq!(digits.id.get(), 2);
            assert_eq!(digits.name.as_ref().unwrap().0, "digits");
            assert_eq!(digits.match_.get(), 1);
            assert!(digits.captures.is_none());
            assert_eq!(digits.repository_stack.len(), 1);
        }
        other => panic!("the rule of digits is {:?}", other),
    }
    match compiled_syntax.rules[2].as_ref().unwrap() {
        Rule::BeginEndRule(ws) => {
            assert_eq!(ws.id.get(), 3);
            assert_eq!(ws.name.as_ref().unwrap().0, "whitespace");
            assert_eq!(ws.begin.get(), 2);
            assert_eq!(ws.end.unwrap().get(), 1);
            assert!(!ws.apply_end_pattern_last);
            assert!(ws.patterns.is_none());
        }
        other => panic!("the rule of whitespace is {:?}", other),
    }
}

#[test]
fn empty_grammar_compiles_to_one_noop_rule() {
    let parsed = parse::SyntaxDefinition {
        scope_name: parse::ScopeName("s".to_string()),
        patterns: vec![],
        repository: None,
        injections: None,
        injection_selector: None,
        inject_to: None,
    };
    let compiled = SyntaxDefinition::compile(parsed).unwrap();
    assert_eq!(compiled.scope_name.0, "s");
    assert_eq!(compiled.rules.len(), 1);
    assert!(matches!(compiled.rules[0], Some(Rule::NoopRule)));
    assert!(compiled.regexes.is_empty());
    assert!(compiled.partial_regexes.is_empty());
    assert!(compiled.repositories.is_empty());
}

#[test]
fn apply_end_pattern_last_is_kept() {
    let rule = parse::Rule {
        begin: Some(parse::RegExpString("a".to_string())),
        end: Some(parse::PartialRegExpString("b".to_string())),
        apply_end_pattern_last: parse::bool_or_number(Some(parse::BoolOrNumber::Number(1))).unwrap(),
        ..Default::default()
    };
    let compiled = SyntaxDefinition::compile(grammar(vec![rule], None)).unwrap();
    match compiled.rules[1].as_ref().unwrap() {
        Rule::BeginEndRule(rule) => assert!(rule.apply_end_pattern_last),
        other => panic!("the rule is {:?}", other),
    }
}

#[test]
fn begin_without_end_has_no_end() {
    let rule = parse::Rule {
        begin: Some(parse::RegExpString("a".to_string())),
        content_name: Some(parse::ScopeName("inner".to_string())),
        patterns: Some(vec![]),
        ..Default::default()
    };
    let compiled = SyntaxDefinition::compile(grammar(vec![rule], None)).unwrap();
    match compiled.rules[1].as_ref().unwrap() {
        Rule::BeginEndRule(rule) => {
            assert!(rule.end.is_none());
            assert!(!rule.apply_end_pattern_last);
            assert_eq!(rule.content_name.as_ref().unwrap().0, "inner");
            assert_eq!(rule.patterns.as_ref().unwrap().len(), 0);
        }
        other => panic!("the rule is {:?}", other),
    }
    assert!(compiled.partial_regexes.is_empty());
}

#[test]
fn captures_written_as_a_sequence_fill_both_slots() {
    let named = |name: &str| parse::Rule {
        name: Some(parse::ScopeName(name.to_string())),
        ..Default::default()
    };
    let rule = parse::Rule {
        match_: Some(parse::RegExpString("(x)(y)".to_string())),
        captures: Some(parse::Captures::from_sequence(vec![named("a"), named("b")])),
        ..Default::default()
    };
    let compiled = SyntaxDefinition::compile(grammar(vec![rule], None)).unwrap();
    match compiled.rules[1].as_ref().unwrap() {
        Rule::MatchRule(rule) => {
            let captures = rule.captures.as_ref().unwrap();
            assert_eq!(captures.0.len(), 2);
            assert_eq!(captures.0[0].unwrap().get(), 3);
            assert_eq!(captures.0[1].unwrap().get(), 4);
        }
        other => panic!("the rule is {:?}", other),
    }
    assert!(matches!(compiled.rules[2], Some(Rule::NoopRule)));
    assert!(matches!(compiled.rules[3], Some(Rule::NoopRule)));
}

#[test]
fn captures_have_a_slot_for_every_index_up_to_the_largest() {
    let rule = parse::Rule {
        match_: Some(parse::RegExpString("(a)(b)(c)".to_string())),
        captures: Some(parse::Captures(vec![
            ("3".to_string(), matching("x")),
            ("+1".to_string(), matching("y")),
        ])),
        ..Default::default()
    };
    let compiled = SyntaxDefinition::compile(grammar(vec![rule], None)).unwrap();
    match compiled.rules[1].as_ref().unwrap() {
        Rule::MatchRule(rule) => {
            let captures = rule.captures.as_ref().unwrap();
            assert_eq!(captures.0.len(), 4);
            assert!(captures.0[0].is_none());
            assert_eq!(captures.0[1].unwrap().get(), 4);
            assert!(captures.0[2].is_none());
            assert_eq!(captures.0[3].unwrap().get(), 3);
        }
        other => panic!("the rule is {:?}", other),
    }
}

#[test]
fn a_later_capture_overwrites_an_earlier_one_of_the_same_index() {
    let rule = parse::Rule {
        match_: Some(parse::RegExpString("(a)".to_string())),
        captures: Some(parse::Captures(vec![
            ("1".to_string(), matching("x")),
            ("01".to_string(), matching("y")),
        ])),
        ..Default::default()
    };
    let compiled = SyntaxDefinition::compile(grammar(vec![rule], None)).unwrap();
    match compiled.rules[1].as_ref().unwrap() {
        Rule::MatchRule(rule) => {
            let captures = rule.captures.as_ref().unwrap();
            assert_eq!(captures.0.len(), 2);
            assert_eq!(captures.0[1].unwrap().get(), 4);
        }
        other => panic!("the rule is {:?}", other),
    }
    assert_eq!(compiled.rules.len(), 4);
}

#[test]
fn captures_without_keys_are_absent() {
    let rule = parse::Rule {
        match_: Some(parse::RegExpString("a".to_string())),
        captures: Some(parse::Captures(vec![])),
        ..Default::default()
    };
    let compiled = SyntaxDefinition::compile(grammar(vec![rule], None)).unwrap();
    match compiled.rules[1].as_ref().unwrap() {
        Rule::MatchRule(rule) => assert!(rule.captures.is_none()),
        other => panic!("the rule is {:?}", other),
    }
}

#[test]
fn a_key_that_is_no_index_is_an_error() {
    let rule = parse::Rule {
        match_: Some(parse::RegExpString("(a)".to_string())),
        captures: Some(parse::Captures(vec![
            ("2".to_string(), blank_rule()),
            ("one".to_string(), blank_rule()),
        ])),
        ..Default::default()
    };
    match SyntaxDefinition::compile(grammar(vec![rule], None)) {
        Err(Error::UnparseableCaptureIndex { index, source }) => {
            assert_eq!(index, "one");
            assert_eq!(source, "one".parse::<usize>().unwrap_err());
        }
        other => panic!("compiled to {:?}", other),
    }
}

#[test]
fn keys_with_signs_or_spaces_are_no_indices() {
    for key in ["", "+", "-1", " 1", "1 ", "1_0", "0x1", "१"] {
        let rule = parse::Rule {
            match_: Some(parse::RegExpString("(a)".to_string())),
            captures: Some(parse::Captures(vec![(key.to_string(), blank_rule())])),
            ..Default::default()
        };
        match SyntaxDefinition::compile(grammar(vec![rule], None)) {
            Err(Error::UnparseableCaptureIndex { index, .. }) => assert_eq!(index, key),
            other => panic!("{:?} compiled to {:?}", key, other),
        }
    }
}

#[test]
fn an_include_wins_over_its_siblings() {
    let pattern = parse::Rule {
        include_: Some(parse::IncludeString("#x".to_string())),
        match_: Some(parse::RegExpString("foo".to_string())),
        ..Default::default()
    };
    let compiled = SyntaxDefinition::compile(grammar(vec![pattern], None)).unwrap();
    assert!(compiled.regexes.is_empty());
    assert_eq!(compiled.rules.len(), 1);
    match compiled.rules[0].as_ref().unwrap() {
        Rule::IncludeOnlyRule(root) => {
            assert_eq!(root.patterns.len(), 1);
            assert_eq!(relative_target(&root.patterns[0]), Some("x"));
        }
        other => panic!("the root is {:?}", other),
    }
}

#[test]
fn a_rule_with_match_is_a_match_rule_whatever_else_it_has() {
    let rule = parse::Rule {
        include_: Some(parse::IncludeString("#x".to_string())),
        match_: Some(parse::RegExpString("m".to_string())),
        begin: Some(parse::RegExpString("b".to_string())),
        end: Some(parse::PartialRegExpString("e".to_string())),
        while_: Some(parse::PartialRegExpString("w".to_string())),
        patterns: Some(vec![matching("p")]),
        repository: Some(parse::Repository(vec![("r".to_string(), matching("q"))])),
        content_name: Some(parse::ScopeName("c".to_string())),
        ..Default::default()
    };
    let repository = parse::Repository(vec![("only".to_string(), rule)]);
    let compiled = SyntaxDefinition::compile(grammar(vec![], Some(repository))).unwrap();
    assert_eq!(compiled.rules.len(), 2);
    assert!(matches!(compiled.rules[1], Some(Rule::MatchRule(_))));
    let regexes: Vec<&str> = compiled.regexes.iter().map(|r| r.0.as_str()).collect();
    assert_eq!(regexes, vec!["m"]);
    assert!(compiled.partial_regexes.is_empty());
    assert_eq!(compiled.repositories.len(), 1);
}

#[test]
fn a_rule_with_begin_and_while_is_a_begin_while_rule() {
    let rule = parse::Rule {
        begin: Some(parse::RegExpString("b".to_string())),
        end: Some(parse::PartialRegExpString("e".to_string())),
        while_: Some(parse::PartialRegExpString("w".to_string())),
        begin_captures: Some(parse::Captures(vec![("0".to_string(), blank_rule())])),
        while_captures: Some(parse::Captures(vec![("1".to_string(), blank_rule())])),
        end_captures: Some(parse::Captures(vec![("2".to_string(), blank_rule())])),
        patterns: Some(vec![including("$self"), matching("p")]),
        ..Default::default()
    };
    let compiled = SyntaxDefinition::compile(grammar(vec![rule], None)).unwrap();
    match compiled.rules[1].as_ref().unwrap() {
        Rule::BeginWhileRule(rule) => {
            assert_eq!(rule.begin.get(), 1);
            assert_eq!(rule.while_.get(), 1);
            assert_eq!(rule.begin_captures.as_ref().unwrap().0.len(), 1);
            assert_eq!(rule.begin_captures.as_ref().unwrap().0[0].unwrap().get(), 3);
            assert_eq!(rule.while_captures.as_ref().unwrap().0.len(), 2);
            assert_eq!(rule.while_captures.as_ref().unwrap().0[1].unwrap().get(), 4);
            let patterns = rule.patterns.as_ref().unwrap();
            assert_eq!(patterns.len(), 2);
            assert!(matches!(patterns[0], RuleIdOrReference::Reference(Reference::Self_)));
            match &patterns[1] {
                RuleIdOrReference::RuleId(id) => assert_eq!(id.get(), 5),
                other => panic!("the pattern is {:?}", other),
            }
        }
        other => panic!("the rule is {:?}", other),
    }
    let partial: Vec<&str> = compiled.partial_regexes.iter().map(|r| r.0.as_str()).collect();
    assert_eq!(partial, vec!["w"]);
    let regexes: Vec<&str> = compiled.regexes.iter().map(|r| r.0.as_str()).collect();
    assert_eq!(regexes, vec!["b", "p"]);
    assert_eq!(compiled.rules.len(), 5);
}

#[test]
fn an_include_stands_for_absent_patterns_only() {
    let with_include = including("source.other");
    let with_empty_patterns = parse::Rule {
        include_: Some(parse::IncludeString("source.other".to_string())),
        patterns: Some(vec![]),
        ..Default::default()
    };
    let repository = parse::Repository(vec![
        ("a".to_string(), with_include),
        ("b".to_string(), with_empty_patterns),
    ]);
    let compiled = SyntaxDefinition::compile(grammar(vec![], Some(repository))).unwrap();
    match compiled.rules[1].as_ref().unwrap() {
        Rule::IncludeOnlyRule(rule) => {
            assert_eq!(rule.patterns.len(), 1);
            match &rule.patterns[0] {
                RuleIdOrReference::Reference(Reference::TopLevel { scope }) => {
                    assert_eq!(scope.0, "source.other")
                }
                other => panic!("the pattern is {:?}", other),
            }
        }
        other => panic!("the rule is {:?}", other),
    }
    assert!(matches!(compiled.rules[2], Some(Rule::NoopRule)));
}

fn nested(levels: usize) -> parse::Repository {
    let inner = if levels > 1 {
        parse::Rule { repository: Some(nested(levels - 1)), ..Default::default() }
    } else {
        matching("x")
    };
    parse::Repository(vec![("r".to_string(), inner)])
}

#[test]
fn four_nested_repositories_compile() {
    let compiled = SyntaxDefinition::compile(grammar(vec![], Some(nested(4)))).unwrap();
    assert_eq!(compiled.repositories.len(), 4);
    assert_eq!(compiled.rules.len(), 5);
    match compiled.rules[4].as_ref().unwrap() {
        Rule::MatchRule(rule) => {
            assert_eq!(rule.repository_stack.len(), 4);
            for depth in 0..4 {
                assert_eq!(rule.repository_stack.get(depth).unwrap().get() as usize, depth + 1);
            }
            assert!(rule.repository_stack.get(4).is_none());
        }
        other => panic!("the rule is {:?}", other),
    }
}

#[test]
fn five_nested_repositories_overflow_the_stack() {
    let compiled = SyntaxDefinition::compile(grammar(vec![], Some(nested(5))));
    assert!(matches!(compiled, Err(Error::RepositoryStackOverflow)));
}

#[test]
fn every_slot_of_a_compiled_grammar_is_filled() {
    let rule = parse::Rule {
        begin: Some(parse::RegExpString("b".to_string())),
        end: Some(parse::PartialRegExpString("e".to_string())),
        begin_captures: Some(parse::Captures(vec![("2".to_string(), matching("c"))])),
        patterns: Some(vec![including("#r"), blank_rule(), matching("p")]),
        ..Default::default()
    };
    let compiled = SyntaxDefinition::compile(grammar(vec![rule], Some(nested(3)))).unwrap();
    assert!(compiled.rules.iter().all(|slot| slot.is_some()));
    assert!(compiled.repositories.iter().all(|slot| slot.is_some()));
    for (position, slot) in compiled.rules.iter().enumerate() {
        let (id, depth) = match slot.as_ref().unwrap() {
            Rule::MatchRule(rule) => (rule.id, rule.repository_stack.len()),
            Rule::IncludeOnlyRule(rule) => (rule.id, rule.repository_stack.len()),
            Rule::BeginWhileRule(rule) => (rule.id, rule.repository_stack.len()),
            Rule::BeginEndRule(rule) => (rule.id, rule.repository_stack.len()),
            Rule::NoopRule => continue,
        };
        assert_eq!(id.to_idx(), position);
        assert!(depth <= 4);
    }
    for repository in compiled.repositories.iter() {
        for (_, id) in repository.as_ref().unwrap().rules.iter() {
            assert!(id.to_idx() < compiled.rules.len());
        }
    }
}

#[test]
fn a_grammar_with_more_repositories_than_ids_does_not_fit() {
    let patterns: Vec<parse::Rule> = (0..256)
        .map(|_| parse::Rule { repository: Some(parse::Repository(vec![])), ..Default::default() })
        .collect();
    let compiled = SyntaxDefinition::try_compile(grammar(patterns, None));
    assert!(matches!(compiled, Err(Halt::Exhausted)));

    let patterns: Vec<parse::Rule> = (0..255)
        .map(|_| parse::Rule { repository: Some(parse::Repository(vec![])), ..Default::default() })
        .collect();
    let compiled = SyntaxDefinition::try_compile(grammar(patterns, None)).unwrap();
    assert_eq!(compiled.repositories.len(), 255);
    assert_eq!(compiled.rules.len(), 256);
}

#[test]
fn try_compile_reports_the_faults_of_a_grammar() {
    let compiled = SyntaxDefinition::try_compile(grammar(vec![], Some(nested(5))));
    assert!(matches!(compiled, Err(Halt::Error(Error::RepositoryStackOverflow))));
}

#[test]
fn a_copy_of_a_grammar_compiles_alike() {
    let rule = parse::Rule {
        begin: Some(parse::RegExpString("b".to_string())),
        end: Some(parse::PartialRegExpString("e".to_string())),
        begin_captures: Some(parse::Captures(vec![("1".to_string(), matching("c"))])),
        patterns: Some(vec![including("#r"), blank_rule(), matching("p")]),
        apply_end_pattern_last: Some(true),
        ..Default::default()
    };
    let mut first = grammar(vec![rule], Some(nested(2)));
    first.injection_selector = Some("L:source.test".to_string());
    first.inject_to = Some(vec!["source.other".to_string()]);
    first.injections = Some(vec![("selector".to_string(), matching("i"))]);
    let second = first.clone();
    assert_eq!(format!("{:?}", first), format!("{:?}", second));
    let first = SyntaxDefinition::compile(first).unwrap();
    let second = SyntaxDefinition::compile(second).unwrap();
    assert_eq!(format!("{:?}", first), format!("{:?}", second));
    assert_eq!(first.rules.len(), 7);
}
