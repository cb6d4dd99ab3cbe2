//! What an `include` points at.
//!
//! A reference is recorded as it was written and resolved by nobody here.

use vstd::prelude::*;
use vstd::std_specs::convert::FromSpecImpl;
use crate::parse::IncludeString;
use crate::scope::ScopeName;
use crate::text::{find_char, lemma_position_of, position_of, same_text};

verus! {

/// The target of an `include`.
#[derive(Debug, Clone)]
pub enum Reference {
    /// `$base`: the grammar that the text was opened with.
    Base,
    /// `$self`: the grammar that holds the rule.
    Self_,
    /// `scope`: the whole grammar of that scope name.
    TopLevel { scope: ScopeName },
    /// `#rule`: a rule of a repository that is visible from here.
    Relative { rule: ScopeName },
    /// `scope#rule`: a rule of the repository of another grammar.
    TopLevelRepository { scope: ScopeName, rule: ScopeName },
}

/// A [`Reference`] over sequences of characters.
pub ghost enum ReferenceView {
    Base,
    Self_,
    TopLevel { scope: Seq<char> },
    Relative { rule: Seq<char> },
    TopLevelRepository { scope: Seq<char>, rule: Seq<char> },
}

impl View for Reference {
    type V = ReferenceView;

    open spec fn view(&self) -> ReferenceView {
        match self {
            Reference::Base => ReferenceView::Base,
            Reference::Self_ => ReferenceView::Self_,
            Reference::TopLevel { scope } => ReferenceView::TopLevel { scope: scope@ },
            Reference::Relative { rule } => ReferenceView::Relative { rule: rule@ },
            Reference::TopLevelRepository { scope, rule } => ReferenceView::TopLevelRepository {
                scope: scope@,
                rule: rule@,
            },
        }
    }
}

impl DeepView for Reference {
    type V = ReferenceView;

    open spec fn deep_view(&self) -> ReferenceView {
        self@
    }
}

/// The characters of `$base`.
pub open spec fn base_keyword() -> Seq<char> {
    seq!['$', 'b', 'a', 's', 'e']
}

/// The characters of `$self`.
pub open spec fn self_keyword() -> Seq<char> {
    seq!['$', 's', 'e', 'l', 'f']
}

/// The reference that the text `s` of an `include` stands for. No text is
/// refused: what is neither a keyword nor holds a `#` names a grammar.
pub open spec fn reference_of(s: Seq<char>) -> ReferenceView {
    if s == base_keyword() {
        ReferenceView::Base
    } else if s == self_keyword() {
        ReferenceView::Self_
    } else if s.len() > 0 && s[0] == '#' {
        ReferenceView::Relative { rule: s.skip(1) }
    } else {
        match position_of(s, '#') {
            Some(at) => ReferenceView::TopLevelRepository {
                scope: s.take(at as int),
                rule: s.skip(at as int + 1),
            },
            None => ReferenceView::TopLevel { scope: s },
        }
    }
}

/// The text that spells `reference` in an `include`.
pub open spec fn render_reference(reference: ReferenceView) -> Seq<char> {
    match reference {
        ReferenceView::Base => base_keyword(),
        ReferenceView::Self_ => self_keyword(),
        ReferenceView::TopLevel { scope } => scope,
        ReferenceView::Relative { rule } => seq!['#'] + rule,
        ReferenceView::TopLevelRepository { scope, rule } => scope + seq!['#'] + rule,
    }
}

/// Every text of an `include` is spelled back by the reference it stands
/// for: rendering undoes parsing.
pub proof fn law_render_inverts_parse(s: Seq<char>)
    ensures
        render_reference(reference_of(s)) == s,
{
    if s == base_keyword() || s == self_keyword() {
    } else if s.len() > 0 && s[0] == '#' {
        assert(seq!['#'] + s.skip(1) =~= s);
    } else {
        lemma_position_of(s, '#');
        match position_of(s, '#') {
            Some(at) => {
                assert(s.take(at as int) + seq!['#'] + s.skip(at as int + 1) =~= s);
            },
            None => {},
        }
    }
}

impl From<&IncludeString> for Reference {
    /// Reads the text of an `include`. Nothing is refused.
    fn from(s: &IncludeString) -> (reference: Reference)
        ensures
            reference@ == reference_of(s@),
    {
        let text = s.0.as_str();
        let n: usize = text.unicode_len();
        proof {
            reveal_strlit("$base");
            reveal_strlit("$self");
            assert("$base"@ =~= base_keyword());
            assert("$self"@ =~= self_keyword());
        }
        if same_text(text, "$base") {
            Reference::Base
        } else if same_text(text, "$self") {
            Reference::Self_
        } else if n > 0 && text.get_char(0) == '#' {
            Reference::Relative { rule: ScopeName(String::from_str(text.substring_char(1, n))) }
        } else {
            match find_char(text, '#') {
                Some(at) => {
                    proof {
                        lemma_position_of(text@, '#');
                    }
                    Reference::TopLevelRepository {
                        scope: ScopeName(String::from_str(text.substring_char(0, at))),
                        rule: ScopeName(String::from_str(text.substring_char(at + 1, n))),
                    }
                },
                None => Reference::TopLevel { scope: ScopeName(String::from_str(text)) },
            }
        }
    }
}

impl FromSpecImpl<&IncludeString> for Reference {
    /// Equality of two references compares their strings as values, of which
    /// nothing is known but their characters: [`From::from`] states its
    /// result on the view instead.
    open spec fn obeys_from_spec() -> bool {
        false
    }

    open spec fn from_spec(s: &IncludeString) -> Self {
        arbitrary()
    }
}

impl Reference {
    /// The text that spells this reference in an `include`.
    pub fn render(&self) -> (text: String)
        ensures
            text@ == render_reference(self@),
    {
        proof {
            reveal_strlit("$base");
            reveal_strlit("$self");
            reveal_strlit("#");
            assert("$base"@ =~= base_keyword());
            assert("$self"@ =~= self_keyword());
            assert("#"@ =~= seq!['#']);
        }
        match self {
            Reference::Base => String::from_str("$base"),
            Reference::Self_ => String::from_str("$self"),
            Reference::TopLevel { scope } => scope.0.clone(),
            Reference::Relative { rule } => String::from_str("#").concat(rule.0.as_str()),
            Reference::TopLevelRepository { scope, rule } => scope.0.clone().concat("#").concat(
                rule.0.as_str(),
            ),
        }
    }
}

} // verus!
