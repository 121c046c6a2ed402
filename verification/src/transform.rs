//! The transform pipeline: from the text as it was read to the text that is
//! stored.

use crate::config::{Config, Replacement};
use crate::regex::{settled, Regex};
use crate::text::{
    chars_of, collapse_breaks, collapsed, lemma_collapsed_identity, lemma_replaced_unbroken,
    replace_all, replaced, string_of, strip_nul, unbroken, without_nul,
};
use vstd::prelude::*;

verus! {

/// `text` after each of the literal substitutions `rules` has passed over it
/// once, in order.
pub open spec fn substituted(text: Seq<char>, rules: Seq<Replacement>) -> Seq<char>
    decreases rules.len(),
{
    if rules.len() == 0 {
        text
    } else {
        replaced(
            substituted(text, rules.drop_last()),
            rules.last().pattern@,
            rules.last().replacement@,
        )
    }
}

/// `text` after it has settled under each of the regular-expression `rules`,
/// in order.
pub open spec fn ruled(text: Seq<char>, rules: Seq<Regex>) -> Seq<char>
    decreases rules.len(),
{
    if rules.len() == 0 {
        text
    } else {
        settled(rules.last().pattern(), rules.last().rep(), ruled(text, rules.drop_last()))
    }
}

/// What a reading becomes: NUL characters leave, line breaks collapse, the
/// literal substitutions pass, the regular-expression rules settle.
pub open spec fn normalized(config: &Config, raw: Seq<char>) -> Seq<char> {
    ruled(substituted(collapsed(without_nul(raw)), config.replace@), config.regex@)
}

/// Whether no replacement of `rules` holds a line break.
pub open spec fn unbroken_rules(rules: Seq<Replacement>) -> bool {
    forall|i: int| 0 <= i < rules.len() ==> unbroken(#[trigger] rules[i].replacement@)
}

/// Substitutions whose replacements hold no line break bring none into a
/// text that holds none.
pub proof fn lemma_substituted_unbroken(text: Seq<char>, rules: Seq<Replacement>)
    requires
        unbroken(text),
        unbroken_rules(rules),
    ensures
        unbroken(substituted(text, rules)),
    decreases rules.len(),
{
    if rules.len() > 0 {
        let head = rules.drop_last();
        assert forall|i: int| 0 <= i < head.len() implies unbroken(
            #[trigger] head[i].replacement@,
        ) by {
            assert(head[i] == rules[i]);
        }
        lemma_substituted_unbroken(text, head);
        assert(unbroken(rules[rules.len() - 1].replacement@));
        lemma_replaced_unbroken(
            substituted(text, head),
            rules.last().pattern@,
            rules.last().replacement@,
        );
    }
}

/// Normalisation without regular-expression rules, and with substitutions
/// whose replacements hold no line break, ends in a fixed point of the
/// collapse: the result holds no line break, and collapsing it again changes
/// nothing.
pub proof fn lemma_normalized_fixed_point(config: &Config, raw: Seq<char>)
    requires
        config.regex@.len() == 0,
        unbroken_rules(config.replace@),
    ensures
        unbroken(normalized(config, raw)),
        collapsed(normalized(config, raw)) == normalized(config, raw),
{
    crate::text::lemma_collapsed_unbroken(without_nul(raw));
    lemma_substituted_unbroken(collapsed(without_nul(raw)), config.replace@);
    lemma_collapsed_identity(normalized(config, raw));
}

/// Applies the literal substitutions, each once, in order.
pub fn substitute(text: Vec<char>, rules: &Vec<Replacement>) -> (out: Vec<char>)
    ensures
        out@ == substituted(text@, rules@),
{
    let mut cur = text;
    let mut i: usize = 0;
    assert(rules@.take(0).len() == 0);
    while i < rules.len()
        invariant
            i <= rules.len(),
            cur@ == substituted(text@, rules@.take(i as int)),
        decreases rules.len() - i,
    {
        let from = chars_of(rules[i].pattern.as_str());
        let to = chars_of(rules[i].replacement.as_str());
        proof {
            assert(rules@.take(i + 1).drop_last() == rules@.take(i as int));
        }
        cur = replace_all(&cur, &from, &to);
        i += 1;
    }
    assert(rules@.take(rules.len() as int) == rules@);
    cur
}

/// Lets the text settle under each regular-expression rule, in order.
pub fn apply_rules(text: String, rules: &Vec<Regex>) -> (out: String)
    ensures
        out@ == ruled(text@, rules@),
{
    let mut cur = text;
    let mut i: usize = 0;
    assert(rules@.take(0).len() == 0);
    while i < rules.len()
        invariant
            i <= rules.len(),
            cur@ == ruled(text@, rules@.take(i as int)),
        decreases rules.len() - i,
    {
        proof {
            assert(rules@.take(i + 1).drop_last() == rules@.take(i as int));
        }
        cur = rules[i].settle(cur).text;
        i += 1;
    }
    assert(rules@.take(rules.len() as int) == rules@);
    cur
}

/// Normalises a reading. Where no regular-expression rule is configured
/// and no replacement of a substitution holds a line break, the result holds
/// no line break and is a fixed point of the collapse.
pub fn normalize(config: &Config, raw: &str) -> (out: String)
    ensures
        out@ == normalized(config, raw@),
        config.regex@.len() == 0 && unbroken_rules(config.replace@) ==> unbroken(out@)
            && collapsed(out@) == out@,
{
    proof {
        if config.regex@.len() == 0 && unbroken_rules(config.replace@) {
            lemma_normalized_fixed_point(config, raw@);
        }
    }
    let clean = strip_nul(&chars_of(raw));
    let joined = collapse_breaks(clean);
    let literal = substitute(joined, &config.replace);
    apply_rules(string_of(&literal), &config.regex)
}

} // verus!
