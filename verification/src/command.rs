//! Launch commands from exec templates.
//!
//! An exec template is a command line that may hold percent-prefixed
//! placeholder tokens. The launcher never supplies files or URIs, so the two
//! tokens for lists of them, `%U` and `%F`, are removed: first every `%U`,
//! then every `%F` of what is left. A template in which a percent sign
//! remains after that asks for something the launcher cannot give and is
//! refused.

use vstd::prelude::*;
use crate::text::{chars_of, string_of};

verus! {

/// The character that starts a placeholder token.
pub const MARK: char = '%';

/// `s` with every occurrence of the token `%letter` removed, scanning from
/// the left; occurrences do not overlap.
pub open spec fn strip_token(s: Seq<char>, letter: char) -> Seq<char>
    decreases s.len(),
{
    if s.len() == 0 {
        s
    } else if s.len() >= 2 && s[0] == MARK && s[1] == letter {
        strip_token(s.skip(2), letter)
    } else {
        seq![s[0]] + strip_token(s.skip(1), letter)
    }
}

/// The command that a template stands for: the template without its `%U`
/// tokens and then without the `%F` tokens of the result.
pub open spec fn sanitized(template: Seq<char>) -> Seq<char> {
    strip_token(strip_token(template, 'U'), 'F')
}

/// Whether `command` still holds a placeholder mark.
pub open spec fn has_placeholder(command: Seq<char>) -> bool {
    command.contains(MARK)
}

/// A template without any placeholder mark is its own command.
pub proof fn lemma_plain_template_unchanged(template: Seq<char>)
    requires
        !has_placeholder(template),
    ensures
        sanitized(template) == template,
{
    lemma_strip_without_mark(template, 'U');
    lemma_strip_without_mark(template, 'F');
}

/// Stripping a token from a text without marks changes nothing.
proof fn lemma_strip_without_mark(s: Seq<char>, letter: char)
    requires
        !s.contains(MARK),
    ensures
        strip_token(s, letter) == s,
    decreases s.len(),
{
    if s.len() > 0 {
        assert(s[0] != MARK);
        assert forall|i: int| 0 <= i < s.skip(1).len() implies s.skip(1)[i] != MARK by {
            assert(s.skip(1)[i] == s[i + 1]);
        }
        lemma_strip_without_mark(s.skip(1), letter);
        assert(seq![s[0]] + s.skip(1) =~= s);
    }
}

/// Why a template gives no command.
#[derive(Clone, Debug, PartialEq, Eq)]
pub enum CommandError {
    /// A placeholder other than `%U` and `%F` is left. `command` is the
    /// template without its `%U` and `%F`, for the warning.
    UnresolvedPlaceholder { command: String },
}

/// Removes every `%letter` from `v`.
fn strip(v: &Vec<char>, letter: char) -> (out: Vec<char>)
    ensures
        out@ == strip_token(v@, letter),
{
    let mut out: Vec<char> = Vec::new();
    let mut i: usize = 0;
    assert(v@.skip(0) == v@);
    assert(out@ + strip_token(v@, letter) == strip_token(v@, letter));
    while i < v.len()
        invariant
            i <= v.len(),
            out@ + strip_token(v@.skip(i as int), letter) == strip_token(v@, letter),
        decreases v.len() - i,
    {
        let ghost rest = v@.skip(i as int);
        if v[i] == MARK && i + 1 < v.len() && v[i + 1] == letter {
            assert(rest.skip(2) == v@.skip(i + 2));
            i += 2;
        } else {
            assert(rest.skip(1) == v@.skip(i + 1));
            assert(out@.push(v@[i as int]) + strip_token(rest.skip(1), letter) == out@ + (seq![
                rest[0],
            ] + strip_token(rest.skip(1), letter)));
            out.push(v[i]);
            i += 1;
        }
    }
    assert(out@ + Seq::<char>::empty() == out@);
    out
}

/// Whether `v` holds a placeholder mark.
fn holds_mark(v: &Vec<char>) -> (found: bool)
    ensures
        found == has_placeholder(v@),
{
    let mut i: usize = 0;
    while i < v.len()
        invariant
            i <= v.len(),
            forall|j: int| 0 <= j < i ==> v@[j] != MARK,
        decreases v.len() - i,
    {
        if v[i] == MARK {
            return true;
        }
        i += 1;
    }
    false
}

/// Turns an exec template into the command to launch.
///
/// The command is the template with `%U` and `%F` removed. It is returned
/// exactly when no placeholder mark is left in it; otherwise it comes back
/// inside the error, to be shown and not to be launched.
pub fn sanitize_exec(template: &str) -> (r: Result<String, CommandError>)
    ensures
        r is Ok <==> !has_placeholder(sanitized(template@)),
        r matches Ok(command) ==> command@ == sanitized(template@),
        r matches Err(CommandError::UnresolvedPlaceholder { command }) ==> command@ == sanitized(
            template@,
        ),
        !has_placeholder(template@) ==> r is Ok,
{
    proof {
        if !has_placeholder(template@) {
            lemma_plain_template_unchanged(template@);
        }
    }
    let chars: Vec<char> = chars_of(template);
    let without_uris: Vec<char> = strip(&chars, 'U');
    let command: Vec<char> = strip(&without_uris, 'F');
    let refused: bool = holds_mark(&command);
    let text: String = string_of(&command);
    if refused {
        Err(CommandError::UnresolvedPlaceholder { command: text })
    } else {
        Ok(text)
    }
}

} // verus!
