//! Matching an index name against a wildcard pattern.
//!
//! A pattern is literal text in which `*` stands for any run of characters,
//! and a name matches only as a whole. The pattern is turned into a regular
//! expression and handed to the `regex` crate, which does the matching.

use vstd::prelude::*;
use vstd::string::*;

verus! {

/// The characters that have a meaning of their own in a regular expression.
pub open spec fn is_meta_character(c: char) -> bool {
    c == '\\' || c == '.' || c == '+' || c == '*' || c == '?' || c == '(' || c == ')' || c == '|'
        || c == '[' || c == ']' || c == '{' || c == '}' || c == '^' || c == '$' || c == '#'
        || c == '&' || c == '-' || c == '~'
}

/// One character written so that a regular expression reads it literally.
pub open spec fn escaped_char(c: char) -> Seq<char> {
    if is_meta_character(c) {
        seq!['\\', c]
    } else {
        seq![c]
    }
}

/// A text written so that a regular expression reads it literally.
pub open spec fn escaped_text(s: Seq<char>) -> Seq<char>
    decreases s.len(),
{
    if s.len() == 0 {
        seq![]
    } else {
        escaped_char(s[0]) + escaped_text(s.drop_first())
    }
}

/// `regex::escape` goes through the text character by character and puts a
/// backslash before each meta character, leaving the others as they are.
pub assume_specification[ regex::escape ](pattern: &str) -> (escaped: String)
    ensures
        escaped@ == escaped_text(pattern@),
;

/// Whether the `regex` crate accepts `pattern` as a regular expression.
pub uninterp spec fn regex_compiles(pattern: Seq<char>) -> bool;

/// Whether the regular expression `pattern`, once compiled, finds a match
/// somewhere in `haystack`.
pub uninterp spec fn regex_finds(pattern: Seq<char>, haystack: Seq<char>) -> bool;

/// Compiles `pattern` with `Regex::new` and searches `haystack` with
/// `Regex::is_match`. The result is `None` exactly when the pattern does not
/// compile; otherwise it holds what the search found.
#[verifier::external_body]
fn regex_is_match(pattern: &str, haystack: &str) -> (found: Option<bool>)
    ensures
        found is Some <==> regex_compiles(pattern@),
        found is Some ==> found->0 == regex_finds(pattern@, haystack@),
{
    match regex::Regex::new(pattern) {
        Ok(re) => Some(re.is_match(haystack)),
        Err(_) => None,
    }
}

/// An escaped text in which each escaped `*` has become `.*`, read from the
/// left.
pub open spec fn with_wildcards(e: Seq<char>) -> Seq<char>
    decreases e.len(),
{
    if e.len() == 0 {
        seq![]
    } else if e.len() >= 2 && e[0] == '\\' && e[1] == '*' {
        seq!['.', '*'] + with_wildcards(e.skip(2))
    } else {
        seq![e[0]] + with_wildcards(e.drop_first())
    }
}

/// What one character of a pattern becomes in the regular expression: a
/// wildcard becomes "any run of characters", any other character itself,
/// read literally.
pub open spec fn pattern_char_regex(c: char) -> Seq<char> {
    if c == '*' {
        seq!['.', '*']
    } else {
        escaped_char(c)
    }
}

/// What the characters of a pattern become, one after the other.
pub open spec fn pattern_body_regex(p: Seq<char>) -> Seq<char>
    decreases p.len(),
{
    if p.len() == 0 {
        seq![]
    } else {
        pattern_char_regex(p[0]) + pattern_body_regex(p.drop_first())
    }
}

/// Start of every regular expression built here: a dot stands for any
/// character, line breaks included, and the match begins where the name
/// begins.
pub const REGEX_OPEN: &'static str = "(?s)^";

/// End of every regular expression built here: the match ends where the
/// name ends.
pub const REGEX_CLOSE: &'static str = "$";

/// The regular expression that stands for a whole pattern.
pub open spec fn wildcard_regex(pattern: Seq<char>) -> Seq<char> {
    REGEX_OPEN@ + pattern_body_regex(pattern) + REGEX_CLOSE@
}

/// Whether `name` matches `pattern`: the pattern's regular expression
/// compiles and finds a match in the name.
pub open spec fn pattern_matches(pattern: Seq<char>, name: Seq<char>) -> bool {
    regex_compiles(wildcard_regex(pattern)) && regex_finds(wildcard_regex(pattern), name)
}

proof fn lemma_escaped_text_never_starts_with_star(s: Seq<char>)
    ensures
        escaped_text(s).len() > 0 ==> escaped_text(s)[0] != '*',
{
    if s.len() > 0 {
        assert(escaped_text(s)[0] == escaped_char(s[0])[0]);
    }
}

/// Escaping a pattern and then turning each escaped `*` into `.*` gives the
/// same text as rewording the pattern character by character.
pub proof fn lemma_wildcards_of_escaped(p: Seq<char>)
    ensures
        with_wildcards(escaped_text(p)) == pattern_body_regex(p),
    decreases p.len(),
{
    if p.len() > 0 {
        let c = p[0];
        let rest = escaped_text(p.drop_first());
        let e = escaped_text(p);
        lemma_wildcards_of_escaped(p.drop_first());
        lemma_escaped_text_never_starts_with_star(p.drop_first());
        if c == '*' {
            assert(e.skip(2) =~= rest);
        } else if is_meta_character(c) {
            let tail = e.drop_first();
            assert(tail =~= seq![c] + rest);
            assert(tail.drop_first() =~= rest);
            assert(with_wildcards(tail) == seq![c] + with_wildcards(rest));
            assert(with_wildcards(e) =~= seq!['\\', c] + with_wildcards(rest));
        } else {
            assert(e.drop_first() =~= rest);
        }
    }
}

/// The expression of a pattern is made piece by piece: what two patterns
/// become, one after the other, is what their joining becomes.
pub proof fn lemma_pattern_body_joins(a: Seq<char>, b: Seq<char>)
    ensures
        pattern_body_regex(a + b) == pattern_body_regex(a) + pattern_body_regex(b),
    decreases a.len(),
{
    if a.len() == 0 {
        assert(a + b =~= b);
        assert(pattern_body_regex(a) + pattern_body_regex(b) =~= pattern_body_regex(b));
    } else {
        lemma_pattern_body_joins(a.drop_first(), b);
        assert((a + b).drop_first() =~= a.drop_first() + b);
        assert(pattern_char_regex(a[0]) + (pattern_body_regex(a.drop_first()) + pattern_body_regex(
            b,
        )) =~= pattern_body_regex(a) + pattern_body_regex(b));
    }
}

/// A pattern without wildcard becomes its own text, read literally.
pub proof fn lemma_pattern_without_wildcard(p: Seq<char>)
    requires
        !p.contains('*'),
    ensures
        pattern_body_regex(p) == escaped_text(p),
    decreases p.len(),
{
    if p.len() > 0 {
        assert(p[0] != '*');
        assert forall|c: char| p.drop_first().contains(c) implies p.contains(c) by {
            let i = choose|i: int| 0 <= i < p.drop_first().len() && p.drop_first()[i] == c;
            assert(p[i + 1] == c);
        }
        lemma_pattern_without_wildcard(p.drop_first());
    }
}

/// Writes the regular expression that stands for `pattern`.
pub fn pattern_to_regex(pattern: &str) -> (re: String)
    ensures
        re@ == wildcard_regex(pattern@),
{
    let escaped = regex::escape(pattern);
    let text: &str = escaped.as_str();
    let mut out = String::from_str(REGEX_OPEN);
    // A backslash is held back until the character after it is known.
    let mut held = false;
    assert(text@.skip(0) =~= text@);
    for c in it: text.chars()
        invariant
            it.seq() == text@,
            held ==> it.index() >= 1 && text@[it.index() - 1] == '\\',
            out@ + with_wildcards(text@.skip(it.index() - if held { 1int } else { 0int }))
                == REGEX_OPEN@ + with_wildcards(text@),
    {
        let ghost i = it.index() as int;
        let ghost before = out@;
        let ghost here = text@.skip(i);
        let ghost after = with_wildcards(text@.skip(i + 1));
        assert(here.len() >= 1 && here[0] == c);
        assert(here.drop_first() =~= text@.skip(i + 1));
        if held {
            let ghost back = text@.skip(i - 1);
            assert(back.len() >= 2 && back[0] == '\\' && back[1] == c);
            assert(back.drop_first() =~= here);
            assert(back.skip(2) =~= text@.skip(i + 1));
            if c == '*' {
                assert(with_wildcards(back) == seq!['.', '*'] + after);
                out.push('.');
                out.push('*');
                held = false;
                assert(out@ + after =~= before + with_wildcards(back));
            } else if c == '\\' {
                assert(with_wildcards(back) == seq!['\\'] + with_wildcards(here));
                out.push('\\');
                assert(out@ + with_wildcards(here) =~= before + with_wildcards(back));
            } else {
                assert(with_wildcards(back) == seq!['\\'] + with_wildcards(here));
                assert(with_wildcards(here) == seq![c] + after);
                out.push('\\');
                out.push(c);
                held = false;
                assert(out@ + after =~= before + with_wildcards(back));
            }
        } else if c == '\\' {
            held = true;
        } else {
            assert(with_wildcards(here) == seq![c] + after);
            out.push(c);
            assert(out@ + after =~= before + with_wildcards(here));
        }
    }
    if held {
        let ghost last = text@.skip(text@.len() - 1);
        assert(last.drop_first() =~= Seq::<char>::empty());
        assert(with_wildcards(last) =~= seq!['\\']) by {
            reveal_with_fuel(with_wildcards, 2);
        }
        out.push('\\');
    } else {
        assert(text@.skip(text@.len() as int) =~= Seq::<char>::empty());
    }
    assert(out@ == REGEX_OPEN@ + with_wildcards(text@));
    out.append(REGEX_CLOSE);
    proof {
        lemma_wildcards_of_escaped(pattern@);
    }
    out
}

/// What a search means for the match: a name matches only where the
/// expression compiled and was found in it.
pub fn match_outcome(found: Option<bool>) -> (r: bool)
    ensures
        r == (found == Some(true)),
{
    match found {
        Some(hit) => hit,
        None => false,
    }
}

/// Decides whether `index_name` matches `pattern`. A pattern whose regular
/// expression does not compile matches nothing.
pub fn matches_pattern(index_name: &str, pattern: &str) -> (r: bool)
    ensures
        r == pattern_matches(pattern@, index_name@),
{
    let re = pattern_to_regex(pattern);
    match_outcome(regex_is_match(re.as_str(), index_name))
}

} // verus!
