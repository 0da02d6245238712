//! Tool specifiers: what the user names for removal.

use vstd::prelude::*;
use vstd::string::StringExecFns;
use crate::text::split_once;

verus! {

/// A backend's name and, optionally, a version requirement: an exact
/// version, the beginning of one, or an alias or range for the backend to
/// resolve.
#[derive(Clone, Debug, PartialEq, Eq)]
pub struct ToolSpecifier {
    pub backend: String,
    pub requirement: Option<String>,
}

/// A specifier as plain text.
pub struct SpecifierView {
    pub backend: Seq<char>,
    pub requirement: Option<Seq<char>>,
}

impl View for ToolSpecifier {
    type V = SpecifierView;

    open spec fn view(&self) -> SpecifierView {
        SpecifierView { backend: self.backend@, requirement: self.requirement.deep_view() }
    }
}

impl DeepView for ToolSpecifier {
    type V = SpecifierView;

    open spec fn deep_view(&self) -> SpecifierView {
        self@
    }
}

/// The character that parts a backend's name from the requirement.
pub const SEPARATOR: char = '@';

/// How many characters of `token` precede its first separator; the length
/// of `token` where it holds none.
pub open spec fn name_len(token: Seq<char>) -> int
    decreases token.len(),
{
    if token.len() == 0 || token[0] == SEPARATOR {
        0
    } else {
        1 + name_len(token.drop_first())
    }
}

/// What a command-line token stands for: the text before the first
/// separator names the backend, and the text behind it, if there is a
/// separator, is the requirement.
pub open spec fn parsed(token: Seq<char>) -> SpecifierView {
    let k = name_len(token);
    SpecifierView {
        backend: token.take(k),
        requirement: if k < token.len() {
            Some(token.skip(k + 1))
        } else {
            None
        },
    }
}

/// The token that stands for a specifier: the backend's name and, where
/// there is a requirement, the separator and the requirement.
pub open spec fn token_of(specifier: SpecifierView) -> Seq<char> {
    match specifier.requirement {
        Some(requirement) => specifier.backend.push(SEPARATOR) + requirement,
        None => specifier.backend,
    }
}

/// A specifier is read back from its token, provided the separator does
/// not occur in the backend's name.
pub proof fn token_reads_back(specifier: SpecifierView)
    requires
        !specifier.backend.contains(SEPARATOR),
    ensures
        parsed(token_of(specifier)) == specifier,
{
    let token = token_of(specifier);
    match specifier.requirement {
        Some(requirement) => {
            name_len_before_separator(specifier.backend, requirement);
            assert(token.take(specifier.backend.len() as int) =~= specifier.backend);
            assert(token.skip(specifier.backend.len() as int + 1) =~= requirement);
        },
        None => {
            name_len_without_separator(token);
            assert(token.take(token.len() as int) =~= token);
        },
    }
}

/// A text without a separator is a name from end to end.
proof fn name_len_without_separator(token: Seq<char>)
    requires
        !token.contains(SEPARATOR),
    ensures
        name_len(token) == token.len(),
    decreases token.len(),
{
    if token.len() > 0 {
        assert(token[0] != SEPARATOR);
        assert forall|c: char| token.drop_first().contains(c) implies token.contains(c) by {
            let j = choose|j: int| 0 <= j < token.drop_first().len() && token.drop_first()[j] == c;
            assert(token[j + 1] == c);
        }
        name_len_without_separator(token.drop_first());
    }
}

/// The name ends where the first separator stands.
proof fn name_len_before_separator(head: Seq<char>, tail: Seq<char>)
    requires
        !head.contains(SEPARATOR),
    ensures
        name_len(head.push(SEPARATOR) + tail) == head.len(),
    decreases head.len(),
{
    let token = head.push(SEPARATOR) + tail;
    if head.len() == 0 {
        assert(token[0] == SEPARATOR);
    } else {
        assert(token[0] == head[0]);
        assert(head.contains(head[0]));
        assert forall|c: char| head.drop_first().contains(c) implies head.contains(c) by {
            let j = choose|j: int| 0 <= j < head.drop_first().len() && head.drop_first()[j] == c;
            assert(head[j + 1] == c);
        }
        assert(token.drop_first() =~= head.drop_first().push(SEPARATOR) + tail);
        name_len_before_separator(head.drop_first(), tail);
    }
}

impl ToolSpecifier {
    /// The token that stands for this specifier.
    pub fn token(&self) -> (text: String)
        ensures
            text@ == token_of(self@),
    {
        let mut text = self.backend.clone();
        match &self.requirement {
            Some(requirement) => {
                text.append("@");
                text.append(requirement.as_str());
                proof {
                    reveal_strlit("@");
                    assert("@"@ =~= seq![SEPARATOR]);
                    assert(text@ =~= token_of(self@));
                }
            },
            None => {},
        }
        text
    }

    /// Reads a token of the shape `NAME` or `NAME@VERSION`.
    pub fn parse(token: &str) -> (specifier: ToolSpecifier)
        ensures
            specifier@ == parsed(token@),
    {
        match split_once(token, SEPARATOR) {
            None => {
                proof {
                    name_len_without_separator(token@);
                    assert(token@.take(token@.len() as int) =~= token@);
                }
                ToolSpecifier { backend: token.to_owned(), requirement: None }
            },
            Some((head, tail)) => {
                proof {
                    name_len_before_separator(head@, tail@);
                    assert(token@.take(head@.len() as int) =~= head@);
                    assert(token@.skip(head@.len() as int + 1) =~= tail@);
                }
                ToolSpecifier { backend: head.to_owned(), requirement: Some(tail.to_owned()) }
            },
        }
    }
}

} // verus!
