use tm_syntax::error::Error;
use tm_syntax::ids::{PartialRegexId, RegexId, RepositoryId, RuleId};
use tm_syntax::index::render_index;
use tm_syntax::parse;
use tm_syntax::parse::BoolOrNumber::{Bool, Number};
use tm_syntax::reference::Reference;
use tm_syntax::rule::Repository;
use tm_syntax::scope::ScopeName;
use tm_syntax::stack::RepositoryStack;

fn reference(text: &str) -> Reference {
    Reference::from(&parse::IncludeString(text.to_string()))
}

#[test]
fn references_are_read_by_their_shape() {
    assert!(matches!(reference("$base"), Reference::Base));
    assert!(matches!(reference("$self"), Reference::Self_));
    match reference("#entity.name") {
        Reference::Relative { rule } => assert_eq!(rule.0, "entity.name"),
        other => panic!("read as {:?}", other),
    }
    match reference("source.ts#entity.name") {
        Reference::TopLevelRepository { scope, rule } => {
            assert_eq!(scope.0, "source.ts");
            assert_eq!(rule.0, "entity.name");
        }
        other => panic!("read as {:?}", other),
    }
    match reference("source.ts") {
        Reference::TopLevel { scope } => assert_eq!(scope.0, "source.ts"),
        other => panic!("read as {:?}", other),
    }
}

#[test]
fn odd_references_are_not_refused() {
    match reference("") {
        Reference::TopLevel { scope } => assert_eq!(scope.0, ""),
        other => panic!("read as {:?}", other),
    }
    match reference("#") {
        Reference::Relative { rule } => assert_eq!(rule.0, ""),
        other => panic!("read as {:?}", other),
    }
    match reference("a#b#c") {
        Reference::TopLevelRepository { scope, rule } => {
            assert_eq!(scope.0, "a");
            assert_eq!(rule.0, "b#c");
        }
        other => panic!("read as {:?}", other),
    }
    match reference("$basement") {
        Reference::TopLevel { scope } => assert_eq!(scope.0, "$basement"),
        other => panic!("read as {:?}", other),
    }
    match reference("größe#maß") {
        Reference::TopLevelRepository { scope, rule } => {
            assert_eq!(scope.0, "größe");
            assert_eq!(rule.0, "maß");
        }
        other => panic!("read as {:?}", other),
    }
}

#[test]
fn rendering_a_reference_gives_its_text_back() {
    for text in [
        "$base",
        "$self",
        "#x",
        "source.ts#x",
        "source.ts",
        "",
        "#",
        "a#",
        "a#b#c",
        "größe#maß",
    ] {
        assert_eq!(reference(text).render(), text);
    }
}

#[test]
fn references_render_to_their_spelling() {
    let name = |text: &str| ScopeName(text.to_string());
    assert_eq!(Reference::Base.render(), "$base");
    assert_eq!(Reference::Self_.render(), "$self");
    assert_eq!(Reference::Relative { rule: name("r") }.render(), "#r");
    assert_eq!(Reference::TopLevel { scope: name("s.t") }.render(), "s.t");
    assert_eq!(
        Reference::TopLevelRepository { scope: name("s.t"), rule: name("r") }.render(),
        "s.t#r"
    );
}

#[test]
fn ids_are_one_based() {
    assert_eq!(RuleId::from_idx(0).get(), 1);
    assert_eq!(RuleId::from_idx(0).to_idx(), 0);
    assert_eq!(RuleId::from_idx(65534).get(), 65535);
    assert_eq!(RuleId::from_idx(65534).to_idx(), 65534);
    assert_eq!(RegexId::from_idx(7).get(), 8);
    assert_eq!(RegexId::from_idx(7).to_idx(), 7);
    assert_eq!(PartialRegexId::from_idx(41).get(), 42);
    assert_eq!(PartialRegexId::from_idx(41).to_idx(), 41);
    assert_eq!(RepositoryId::from_idx(254).get(), 255);
    assert_eq!(RepositoryId::from_idx(254).to_idx(), 254);
    assert_eq!(RuleId::from_idx(3), RuleId::from_idx(3));
    assert_ne!(RuleId::from_idx(3), RuleId::from_idx(4));
}

#[test]
fn an_absent_id_needs_no_more_room_than_an_id() {
    assert_eq!(std::mem::size_of::<RuleId>(), 2);
    assert_eq!(std::mem::size_of::<RepositoryId>(), 1);
}

#[test]
fn the_stack_takes_four_repositories() {
    let mut stack = RepositoryStack::empty();
    assert_eq!(stack.len(), 0);
    assert!(stack.get(0).is_none());
    for position in 0..4 {
        stack = stack.push(RepositoryId::from_idx(position + 10)).unwrap();
        assert_eq!(stack.len(), position + 1);
    }
    for position in 0..4 {
        assert_eq!(stack.get(position).unwrap().get() as usize, position + 11);
    }
    assert!(stack.get(4).is_none());
    assert!(matches!(
        stack.push(RepositoryId::from_idx(0)),
        Err(Error::RepositoryStackOverflow)
    ));
}

#[test]
fn the_stack_gives_back_what_was_pushed_last() {
    let stack = RepositoryStack::empty()
        .push(RepositoryId::from_idx(0))
        .unwrap()
        .push(RepositoryId::from_idx(5))
        .unwrap();
    let (stack, top) = stack.pop().unwrap();
    assert_eq!(top.get(), 6);
    assert_eq!(stack.len(), 1);
    let (stack, top) = stack.pop().unwrap();
    assert_eq!(top.get(), 1);
    assert_eq!(stack.len(), 0);
    assert_eq!(RepositoryStack::default().len(), 0);
}

#[test]
fn a_copy_of_the_stack_is_not_changed_by_a_push() {
    let stack = RepositoryStack::empty().push(RepositoryId::from_idx(0)).unwrap();
    let pushed = stack.push(RepositoryId::from_idx(1)).unwrap();
    assert_eq!(stack.len(), 1);
    assert_eq!(pushed.len(), 2);
}

#[test]
fn indices_are_spelled_in_decimal() {
    assert_eq!(render_index(0), "0");
    assert_eq!(render_index(7), "7");
    assert_eq!(render_index(10), "10");
    assert_eq!(render_index(12345), "12345");
    assert_eq!(render_index(usize::MAX), usize::MAX.to_string());
}

#[test]
fn a_spelled_index_is_read_back() {
    for index in [0usize, 1, 9, 10, 99, 100, 65535, usize::MAX] {
        assert_eq!(render_index(index).parse::<usize>().unwrap(), index);
    }
}

#[test]
fn captures_from_a_sequence_are_keyed_by_position() {
    let rules: Vec<parse::Rule> = (0..12)
        .map(|n| parse::Rule {
            name: Some(parse::ScopeName(format!("n{}", n))),
            ..Default::default()
        })
        .collect();
    let captures = parse::Captures::from_sequence(rules);
    assert_eq!(captures.0.len(), 12);
    for (position, (key, rule)) in captures.0.iter().enumerate() {
        assert_eq!(*key, position.to_string());
        assert_eq!(rule.name.as_ref().unwrap().0, format!("n{}", position));
    }
    assert!(parse::Captures::from_sequence(vec![]).0.is_empty());
}

#[test]
fn flags_are_booleans_or_zero_and_one() {
    assert_eq!(parse::bool_or_number(None), Ok(None));
    assert_eq!(parse::bool_or_number(Some(Bool(true))), Ok(Some(true)));
    assert_eq!(parse::bool_or_number(Some(Bool(false))), Ok(Some(false)));
    assert_eq!(parse::bool_or_number(Some(Number(0))), Ok(Some(false)));
    assert_eq!(parse::bool_or_number(Some(Number(1))), Ok(Some(true)));
    assert_eq!(parse::bool_or_number(Some(Number(2))), Err(2));
    assert_eq!(parse::bool_or_number(Some(Number(255))), Err(255));
}

#[test]
fn a_default_rule_has_no_field() {
    let rule = parse::Rule::default();
    assert!(rule.include_.is_none());
    assert!(rule.name.is_none());
    assert!(rule.content_name.is_none());
    assert!(rule.match_.is_none());
    assert!(rule.captures.is_none());
    assert!(rule.begin.is_none());
    assert!(rule.begin_captures.is_none());
    assert!(rule.end.is_none());
    assert!(rule.end_captures.is_none());
    assert!(rule.while_.is_none());
    assert!(rule.while_captures.is_none());
    assert!(rule.patterns.is_none());
    assert!(rule.repository.is_none());
    assert!(rule.apply_end_pattern_last.is_none());
}

#[test]
fn a_repository_gives_the_rule_written_last_under_a_name() {
    let repository = Repository {
        rules: vec![
            (ScopeName("a".to_string()), RuleId::from_idx(1)),
            (ScopeName("b".to_string()), RuleId::from_idx(2)),
            (ScopeName("a".to_string()), RuleId::from_idx(3)),
        ],
    };
    assert_eq!(repository.get("a").unwrap().get(), 4);
    assert_eq!(repository.get("b").unwrap().get(), 3);
    assert!(repository.get("c").is_none());
    assert!(repository.get("").is_none());
}

#[test]
fn a_scope_name_keeps_its_text() {
    let name = ScopeName::from(parse::ScopeName("entity.name".to_string()));
    assert_eq!(name.0, "entity.name");
}
