//! Regular-expression rules of the transform configuration.

use vstd::prelude::*;
use vstd::string::StrSliceExecFns;

verus! {

/// `regex::Error`: why a pattern did not compile. Nothing is read from it.
#[verifier::external_type_specification]
#[verifier::external_body]
pub struct ExRegexError(regex::Error);

/// Whether `pattern` compiles as a regular expression in Unicode mode.
pub uninterp spec fn regex_valid(pattern: Seq<char>) -> bool;

/// Whether the regular expression `pattern` matches somewhere in `haystack`.
pub uninterp spec fn regex_matches(pattern: Seq<char>, haystack: Seq<char>) -> bool;

/// `haystack` with every match of the regular expression `pattern` replaced
/// by the expansion of `rep`.
pub uninterp spec fn regex_replaced(
    pattern: Seq<char>,
    rep: Seq<char>,
    haystack: Seq<char>,
) -> Seq<char>;

/// Compiles `pattern` and throws the program away.
///
/// Stands for `regex::RegexBuilder::build` on a builder for `pattern` with
/// Unicode mode on: it succeeds exactly on the patterns that `regex_valid`
/// names. Nothing is proved of which patterns those are.
#[verifier::external_body]
fn compile(pattern: &str) -> (r: Result<(), regex::Error>)
    ensures
        r is Ok == regex_valid(pattern@),
{
    match regex::RegexBuilder::new(pattern).unicode(true).build() {
        Ok(_) => Ok(()),
        Err(e) => Err(e),
    }
}

/// Stands for `regex::Regex::is_match` on the expression compiled from
/// `pattern` in Unicode mode: the answer is what `regex_matches` names.
#[verifier::external_body]
fn search(pattern: &str, haystack: &str) -> (found: bool)
    requires
        regex_valid(pattern@),
    ensures
        found == regex_matches(pattern@, haystack@),
{
    match regex::RegexBuilder::new(pattern).unicode(true).build() {
        Ok(re) => re.is_match(haystack),
        Err(_) => false,
    }
}

/// Stands for `regex::Regex::replace_all` on the expression compiled from
/// `pattern` in Unicode mode, with `rep` as the replacement: the text that
/// comes back is what `regex_replaced` names.
#[verifier::external_body]
fn substitute(pattern: &str, rep: &str, haystack: &str) -> (out: String)
    requires
        regex_valid(pattern@),
    ensures
        out@ == regex_replaced(pattern@, rep@, haystack@),
{
    match regex::RegexBuilder::new(pattern).unicode(true).build() {
        Ok(re) => re.replace_all(haystack, rep).into_owned(),
        Err(_) => haystack.to_owned(),
    }
}

/// A pattern that does not compile.
#[derive(Debug)]
pub struct InvalidRegex {
    pub pattern: String,
}

/// A rule: a regular expression and the text that replaces its matches.
/// The rule holds its pattern as text. The pattern is tested when the rule is
/// made, and compiled anew for each search and each pass.
pub struct Regex {
    pattern: String,
    rep: String,
}

/// Where `text` settles under the rule `pattern` → `rep`: the rule is applied
/// to the whole text as long as it matches and the pass before left the text
/// shorter. A pass that does not shorten the text is the last.
pub open spec fn settled(pattern: Seq<char>, rep: Seq<char>, text: Seq<char>) -> Seq<char>
    decreases text.len(),
{
    if !regex_matches(pattern, text) {
        text
    } else {
        let next = regex_replaced(pattern, rep, text);
        if next.len() < text.len() {
            settled(pattern, rep, next)
        } else {
            next
        }
    }
}

/// Whether `out` came from a pass of the rule that did not shorten the text:
/// the rule matched some text, and `out` is what the pass made of it, no
/// shorter than it was.
pub open spec fn stalled(pattern: Seq<char>, rep: Seq<char>, out: Seq<char>) -> bool {
    exists|before: Seq<char>|
        regex_matches(pattern, before) && #[trigger] regex_replaced(pattern, rep, before) == out
            && before.len() <= out.len()
}

/// Where settling ends: on a text that the rule does not match, or on one
/// that a pass made without shortening it.
pub proof fn lemma_settled_ends(pattern: Seq<char>, rep: Seq<char>, text: Seq<char>)
    ensures
        !regex_matches(pattern, settled(pattern, rep, text)) || stalled(
            pattern,
            rep,
            settled(pattern, rep, text),
        ),
    decreases text.len(),
{
    if regex_matches(pattern, text) {
        let next = regex_replaced(pattern, rep, text);
        if next.len() < text.len() {
            lemma_settled_ends(pattern, rep, next);
        } else {
            assert(regex_replaced(pattern, rep, text) == next);
        }
    }
}

/// What settling gave.
#[derive(Debug)]
pub struct Settled {
    /// The text after the last pass.
    pub text: String,
    /// Whether the rule is at rest: it matches nowhere in the text. Where it
    /// is not, the last pass did not shorten the text.
    pub at_rest: bool,
}

/// Whether `after` has fewer characters than `before`.
pub fn shrinks(before: &str, after: &str) -> (r: bool)
    ensures
        r == (after@.len() < before@.len()),
{
    after.unicode_len() < before.unicode_len()
}

impl Regex {
    #[verifier::type_invariant]
    spec fn compiles(self) -> bool {
        regex_valid(self.pattern@)
    }

    /// The pattern of the rule.
    pub closed spec fn pattern(&self) -> Seq<char> {
        self.pattern@
    }

    /// The replacement of the rule.
    pub closed spec fn rep(&self) -> Seq<char> {
        self.rep@
    }

    /// A rule from its pattern and its replacement. Fails exactly where the
    /// pattern does not compile.
    pub fn new(pattern: &str, rep: &str) -> (r: Result<Regex, InvalidRegex>)
        ensures
            r is Ok == regex_valid(pattern@),
            r matches Ok(rule) ==> rule.pattern() == pattern@ && rule.rep() == rep@,
            r matches Err(e) ==> e.pattern@ == pattern@,
    {
        match compile(pattern) {
            Ok(_) => Ok(Regex { pattern: pattern.to_owned(), rep: rep.to_owned() }),
            Err(_) => Err(InvalidRegex { pattern: pattern.to_owned() }),
        }
    }

    /// Whether the rule matches somewhere in `haystack`.
    pub fn is_match(&self, haystack: &str) -> (found: bool)
        ensures
            found == regex_matches(self.pattern(), haystack@),
    {
        proof {
            use_type_invariant(self);
        }
        search(self.pattern.as_str(), haystack)
    }

    /// `haystack` after one pass of the rule over all its matches.
    pub fn replace_all(&self, haystack: &str) -> (out: String)
        ensures
            out@ == regex_replaced(self.pattern(), self.rep(), haystack@),
    {
        proof {
            use_type_invariant(self);
        }
        substitute(self.pattern.as_str(), self.rep.as_str(), haystack)
    }

    /// Applies the rule until the text settles, and says whether the rule
    /// still matches then.
    pub fn settle(&self, text: String) -> (out: Settled)
        ensures
            out.text@ == settled(self.pattern(), self.rep(), text@),
            out.at_rest == !regex_matches(self.pattern(), out.text@),
            out.at_rest || stalled(self.pattern(), self.rep(), out.text@),
    {
        proof {
            lemma_settled_ends(self.pattern(), self.rep(), text@);
        }
        let mut cur = text;
        loop
            invariant
                settled(self.pattern(), self.rep(), cur@) == settled(
                    self.pattern(),
                    self.rep(),
                    text@,
                ),
            decreases cur@.len(),
        {
            if !self.is_match(cur.as_str()) {
                return Settled { text: cur, at_rest: true };
            }
            let next = self.replace_all(cur.as_str());
            if !shrinks(cur.as_str(), next.as_str()) {
                let at_rest = !self.is_match(next.as_str());
                return Settled { text: next, at_rest };
            }
            cur = next;
        }
    }
}

} // verus!
