//! Name normalisation and fuzzy matching: only letters and digits count, in
//! lower case, so `"CHS -"`, `"something*chs*"` and `"chs"` all reduce to
//! `chs` / `somethingchs`, and a pattern matches any text that contains it.
use vstd::prelude::*;
use crate::text::{append_chars, ascii_lower, chars_of, contains_chars, contains_seq, string_of};

verus! {

/// Whether `c` is an ASCII character.
pub open spec fn is_ascii_char(c: char) -> bool {
    (c as int) < 128
}

/// Whether `c` is an ASCII letter or digit.
pub open spec fn ascii_alphanumeric(c: char) -> bool {
    ('a' <= c && c <= 'z') || ('A' <= c && c <= 'Z') || ('0' <= c && c <= '9')
}

/// Whether `char::is_alphanumeric` holds of a character beyond ASCII
/// (Unicode `Alphabetic` or `Numeric`).
pub uninterp spec fn alphanumeric_beyond_ascii(c: char) -> bool;

/// The characters `char::to_lowercase` yields for a character beyond ASCII.
pub uninterp spec fn lowercase_beyond_ascii(c: char) -> Seq<char>;

/// Whether `char::is_alphanumeric` holds of `c`: among ASCII characters, of
/// the letters and digits.
pub open spec fn is_alphanumeric(c: char) -> bool {
    if is_ascii_char(c) {
        ascii_alphanumeric(c)
    } else {
        alphanumeric_beyond_ascii(c)
    }
}

/// The characters `char::to_lowercase` yields for `c`: for an ASCII
/// character, the character with an upper-case letter made lower case.
pub open spec fn lowercase_of(c: char) -> Seq<char> {
    if is_ascii_char(c) {
        seq![ascii_lower(c)]
    } else {
        lowercase_beyond_ascii(c)
    }
}

/// Calls `char::is_alphanumeric` (Unicode `Alphabetic` or `Numeric`, which
/// among ASCII characters are the letters and digits): the result is
/// `is_alphanumeric(c)`.
#[verifier::external_body]
fn char_is_alphanumeric(c: char) -> (r: bool)
    ensures
        r == is_alphanumeric(c),
        !is_ascii_char(c) ==> r == alphanumeric_beyond_ascii(c),
{
    c.is_alphanumeric()
}

/// Calls `char::to_lowercase` and collects what it yields: `lowercase_of(c)`,
/// one or more characters as its documentation says, and for an ASCII
/// character that character in lower case.
#[verifier::external_body]
fn char_to_lowercase(c: char) -> (r: Vec<char>)
    ensures
        r@ == lowercase_of(c),
        !is_ascii_char(c) ==> r@ == lowercase_beyond_ascii(c),
        r@.len() >= 1,
{
    c.to_lowercase().collect()
}

/// The normal form of `s`: each letter or digit in lower case, everything else dropped.
pub open spec fn normalized(s: Seq<char>) -> Seq<char>
    decreases s.len(),
{
    if s.len() == 0 {
        seq![]
    } else {
        normalized(s.drop_last()) + if is_alphanumeric(s.last()) {
            lowercase_of(s.last())
        } else {
            seq![]
        }
    }
}

/// Whether `pattern` matches `text`: its normal form is non-empty and occurs
/// in the normal form of `text`.
pub open spec fn pattern_matches(pattern: Seq<char>, text: Seq<char>) -> bool {
    normalized(pattern).len() > 0 && contains_seq(normalized(text), normalized(pattern))
}

/// The normal form of `s` as characters.
pub(crate) fn normalize_chars(s: &str) -> (r: Vec<char>)
    ensures
        r@ == normalized(s@),
{
    let v = chars_of(s);
    let mut r: Vec<char> = Vec::new();
    let mut i: usize = 0;
    while i < v.len()
        invariant
            i <= v.len(),
            v@ == s@,
            r@ == normalized(v@.subrange(0, i as int)),
        decreases v.len() - i,
    {
        let c = v[i];
        let ghost pre = v@.subrange(0, i as int);
        let ghost next = v@.subrange(0, i + 1);
        assert(next.drop_last() =~= pre);
        if char_is_alphanumeric(c) {
            let low = char_to_lowercase(c);
            append_chars(&mut r, &low);
        } else {
            assert(r@ =~= r@ + Seq::<char>::empty());
        }
        i = i + 1;
    }
    assert(v@.subrange(0, v@.len() as int) =~= v@);
    r
}

/// Normalisation: keeps only letters and digits, in lower case.
pub fn normalize(s: &str) -> (r: String)
    ensures
        r@ == normalized(s@),
{
    let v = normalize_chars(s);
    string_of(&v)
}

/// Substring match: the normalised pattern must occur in the normalised
/// text, with any other text around it. An empty pattern matches nothing.
pub fn matches(pattern: &str, text: &str) -> (r: bool)
    ensures
        r == pattern_matches(pattern@, text@),
{
    let p = normalize_chars(pattern);
    if p.len() == 0 {
        return false;
    }
    let t = normalize_chars(text);
    contains_chars(&t, &p)
}

/// Normalising a concatenation normalises each part.
pub proof fn lemma_normalized_concat(a: Seq<char>, b: Seq<char>)
    ensures
        normalized(a + b) == normalized(a) + normalized(b),
    decreases b.len(),
{
    if b.len() == 0 {
        assert(a + b =~= a);
        assert(normalized(a) + normalized(b) =~= normalized(a));
    } else {
        lemma_normalized_concat(a, b.drop_last());
        assert((a + b).drop_last() =~= a + b.drop_last());
        assert((a + b).last() == b.last());
        let tail = if is_alphanumeric(b.last()) {
            lowercase_of(b.last())
        } else {
            seq![]
        };
        assert(normalized(a) + normalized(b.drop_last()) + tail =~= normalized(a) + (normalized(
            b.drop_last(),
        ) + tail));
    }
}

/// Anything may stand around a match: a pattern that matches a text also
/// matches that text with any prefix and suffix added.
pub proof fn law_match_survives_surrounding_text(
    pattern: Seq<char>,
    text: Seq<char>,
    before: Seq<char>,
    after: Seq<char>,
)
    requires
        pattern_matches(pattern, text),
    ensures
        pattern_matches(pattern, before + text + after),
{
    lemma_normalized_concat(before, text);
    lemma_normalized_concat(before + text, after);
    let p = normalized(pattern);
    let nb = normalized(before);
    let nt = normalized(text);
    let na = normalized(after);
    let i = choose|i: int| crate::text::occurs_at(nt, p, i);
    let whole = nb + nt + na;
    assert(whole.subrange(nb.len() + i, nb.len() + i + p.len()) =~= nt.subrange(i, i + p.len()));
    assert(crate::text::occurs_at(whole, p, nb.len() + i));
}

/// A pattern with at least one letter or digit matches itself.
pub proof fn law_pattern_matches_itself(pattern: Seq<char>)
    requires
        normalized(pattern).len() > 0,
    ensures
        pattern_matches(pattern, pattern),
{
    let p = normalized(pattern);
    assert(p.subrange(0, p.len() as int) =~= p);
    assert(crate::text::occurs_at(p, p, 0));
}

/// Matching sees only normal forms: texts with equal normal forms are matched
/// by the same patterns.
pub proof fn law_match_depends_on_normal_form(pattern: Seq<char>, t1: Seq<char>, t2: Seq<char>)
    requires
        normalized(t1) == normalized(t2),
    ensures
        pattern_matches(pattern, t1) == pattern_matches(pattern, t2),
{
}

/// The normal form of an ASCII string: its letters and digits, lower-cased.
pub open spec fn ascii_normal(s: Seq<char>) -> Seq<char>
    decreases s.len(),
{
    if s.len() == 0 {
        seq![]
    } else {
        ascii_normal(s.drop_last()) + if ascii_alphanumeric(s.last()) {
            seq![ascii_lower(s.last())]
        } else {
            seq![]
        }
    }
}

/// Whether every character of `s` is ASCII.
pub open spec fn all_ascii(s: Seq<char>) -> bool {
    forall|i: int| 0 <= i < s.len() ==> is_ascii_char(#[trigger] s[i])
}

/// Whether `s` holds only lower-case ASCII letters and digits.
pub open spec fn lower_alphanumeric(s: Seq<char>) -> bool {
    forall|i: int| 0 <= i < s.len() ==> ('a' <= #[trigger] s[i] && s[i] <= 'z') || ('0' <= s[i] && s[i] <= '9')
}

proof fn lemma_ascii_normal(s: Seq<char>)
    requires
        all_ascii(s),
    ensures
        normalized(s) == ascii_normal(s),
        lower_alphanumeric(normalized(s)),
    decreases s.len(),
{
    if s.len() > 0 {
        let p = s.drop_last();
        assert(all_ascii(p)) by {
            assert forall|i: int| 0 <= i < p.len() implies is_ascii_char(#[trigger] p[i]) by {
                assert(p[i] == s[i]);
            }
        }
        lemma_ascii_normal(p);
        let c = s.last();
        assert(is_ascii_char(c));
        let n = normalized(s);
        let np = normalized(p);
        assert forall|i: int| 0 <= i < n.len() implies ('a' <= #[trigger] n[i] && n[i] <= 'z') || (
        '0' <= n[i] && n[i] <= '9') by {
            if i < np.len() {
                assert(n[i] == np[i]);
            } else {
                assert(n[i] == ascii_lower(c));
                if 'A' <= c && c <= 'Z' {
                    assert(((c as u8) + 32u8) as char == ascii_lower(c));
                }
            }
        }
    }
}

proof fn lemma_lower_alphanumeric_fixed(s: Seq<char>)
    requires
        lower_alphanumeric(s),
    ensures
        normalized(s) == s,
    decreases s.len(),
{
    if s.len() > 0 {
        let p = s.drop_last();
        assert(lower_alphanumeric(p)) by {
            assert forall|i: int| 0 <= i < p.len() implies ('a' <= #[trigger] p[i] && p[i] <= 'z') || (
            '0' <= p[i] && p[i] <= '9') by {
                assert(p[i] == s[i]);
            }
        }
        lemma_lower_alphanumeric_fixed(p);
        let c = s.last();
        assert(('a' <= c && c <= 'z') || ('0' <= c && c <= '9'));
        assert(normalized(s) =~= p.push(c));
        assert(s =~= p.push(c));
    }
}

/// On ASCII text, normalising keeps exactly the letters and digits, in lower
/// case, and normalising twice gives the same as once.
pub proof fn law_ascii_normal_form(s: Seq<char>)
    requires
        all_ascii(s),
    ensures
        normalized(s) == ascii_normal(s),
        normalized(normalized(s)) == normalized(s),
{
    lemma_ascii_normal(s);
    lemma_lower_alphanumeric_fixed(normalized(s));
}

} // verus!
