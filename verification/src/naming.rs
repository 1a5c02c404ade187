use vstd::prelude::*;
use vstd::string::StrSliceExecFns;
use vstd::string::StringExecFns;

verus! {

/// The characters that `char::to_uppercase` yields for a character.
pub uninterp spec fn upper_chars_of(c: char) -> Seq<char>;

/// The characters of the string that `str::to_lowercase` produces.
pub uninterp spec fn lower_of(s: Seq<char>) -> Seq<char>;

/// The characters that `str::trim` leaves: the input without leading and
/// trailing whitespace.
pub uninterp spec fn trimmed_of(s: Seq<char>) -> Seq<char>;

/// Relies on `char::to_uppercase`: the uppercase mapping of a character,
/// which depends on the character alone (it may be more than one character).
#[verifier::external_body]
fn char_to_upper(c: char) -> (r: String)
    ensures
        r@ == upper_chars_of(c),
{
    c.to_uppercase().collect()
}

/// Relies on `str::to_lowercase`: the lowercase mapping of a string, which
/// depends on its characters alone.
#[verifier::external_body]
fn str_to_lower(s: &str) -> (r: String)
    ensures
        r@ == lower_of(s@),
{
    s.to_lowercase()
}

/// Relies on `str::trim`: the input without leading and trailing whitespace,
/// which depends on its characters alone.
#[verifier::external_body]
fn str_trim(s: &str) -> (r: String)
    ensures
        r@ == trimmed_of(s@),
{
    String::from(s.trim())
}

/// The position of the first underscore in `s`, or `s.len()` if there is
/// none.
pub open spec fn split_at(s: Seq<char>) -> int
    decreases s.len(),
{
    if s.len() == 0 {
        0
    } else if s[0] == '_' {
        0
    } else {
        1 + split_at(s.skip(1))
    }
}

proof fn lemma_split_at_bounds(s: Seq<char>)
    ensures
        0 <= split_at(s) <= s.len(),
        split_at(s) < s.len() ==> s[split_at(s)] == '_',
        forall|k: int| 0 <= k < split_at(s) ==> s[k] != '_',
    decreases s.len(),
{
    if s.len() == 0 {
    } else if s[0] == '_' {
    } else {
        lemma_split_at_bounds(s.skip(1));
        assert forall|k: int| 0 <= k < split_at(s) implies s[k] != '_' by {
            if k > 0 {
                assert(s.skip(1)[k - 1] != '_');
            }
        }
    }
}

/// The camel form of one word: its first character uppercased, the rest of
/// the word lowercased; an empty word stays empty.
pub open spec fn camel_word(w: Seq<char>) -> Seq<char> {
    if w.len() == 0 {
        Seq::empty()
    } else {
        upper_chars_of(w[0]) + lower_of(w.skip(1))
    }
}

/// The upper-camel form of an underscore-separated name: each word between
/// underscores is camel-cased, and the results are concatenated.
pub open spec fn camel_of(s: Seq<char>) -> Seq<char>
    decreases s.len(),
    via camel_of_decreases
{
    if split_at(s) >= s.len() {
        camel_word(s)
    } else {
        camel_word(s.take(split_at(s))) + camel_of(s.skip(split_at(s) + 1))
    }
}

#[via_fn]
proof fn camel_of_decreases(s: Seq<char>) {
    lemma_split_at_bounds(s);
}

/// The position of the first underscore, or the length if there is none.
fn find_underscore(s: &str) -> (r: usize)
    ensures
        r as int == split_at(s@),
{
    proof {
        lemma_split_at_bounds(s@);
    }
    let n = s.unicode_len();
    let mut i: usize = 0;
    while i < n
        invariant
            i <= n,
            n == s@.len(),
            forall|k: int| 0 <= k < i ==> s@[k] != '_',
        decreases n - i,
    {
        if s.get_char(i) == '_' {
            proof {
                lemma_split_at_bounds(s@);
                assert(split_at(s@) <= i);
                assert(split_at(s@) >= i);
            }
            return i;
        }
        i += 1;
    }
    proof {
        assert(split_at(s@) >= n);
    }
    n
}

/// The camel form of one underscore-free word.
fn camel_word_exec(w: &str) -> (r: String)
    ensures
        r@ == camel_word(w@),
{
    let n = w.unicode_len();
    if n == 0 {
        String::new()
    } else {
        let first = w.get_char(0);
        let rest = w.substring_char(1, n);
        let mut r = char_to_upper(first);
        let low = str_to_lower(rest);
        r.append(low.as_str());
        r
    }
}

/// Convert an underscore-separated name to upper camel case: each word has
/// its first character uppercased and the rest lowercased, and the
/// underscores are dropped.
pub fn to_upper_camel_case(input: &str) -> (r: String)
    ensures
        r@ == camel_of(input@),
    decreases input@.len(),
{
    proof {
        lemma_split_at_bounds(input@);
    }
    let n = input.unicode_len();
    let i = find_underscore(input);
    if i >= n {
        camel_word_exec(input)
    } else {
        let head = input.substring_char(0, i);
        let tail = input.substring_char(i + 1, n);
        let mut r = camel_word_exec(head);
        let rest = to_upper_camel_case(tail);
        r.append(rest.as_str());
        proof {
            assert(head@ == input@.take(i as int));
            assert(tail@ == input@.skip(i as int + 1));
        }
        r
    }
}

/// The string literal that an attribute-argument fragment denotes: the
/// fragment, trimmed, must begin with `=`; what follows the `=`, trimmed,
/// must begin and end with a double quote; the denoted literal is the text
/// between the quotes. Anything else denotes no literal.
pub open spec fn spec_extract_string_literal(s: Seq<char>) -> Option<Seq<char>> {
    let t = trimmed_of(s);
    if t.len() >= 1 && t[0] == '=' {
        let u = trimmed_of(t.skip(1));
        if u.len() >= 2 && u[0] == '"' && u[u.len() - 1] == '"' {
            Some(u.subrange(1, u.len() - 1))
        } else {
            None
        }
    } else {
        None
    }
}

/// Extract the string literal from an attribute-argument fragment of the
/// shape `= "..."`, if it has that shape.
pub fn extract_string_literal(input: &str) -> (r: Option<String>)
    ensures
        (match (spec_extract_string_literal(input@), r) {
            (Some(v), Some(w)) => w@ == v,
            (None, None) => true,
            _ => false,
        }),
{
    let t = str_trim(input);
    let tn = t.as_str().unicode_len();
    if tn >= 1 && t.as_str().get_char(0) == '=' {
        let after = t.as_str().substring_char(1, tn);
        let u = str_trim(after);
        let un = u.as_str().unicode_len();
        if un >= 2 && u.as_str().get_char(0) == '"' && u.as_str().get_char(un - 1) == '"' {
            let inner = u.as_str().substring_char(1, un - 1);
            Some(String::from_str(inner))
        } else {
            None
        }
    } else {
        None
    }
}

} // verus!
