//! Detection of the `unsafe` keyword in a line of Rust source text.

use vstd::prelude::*;

verus! {

/// What `char::is_alphanumeric` returns for `c`: whether `c` has the Unicode
/// `Alphabetic` or `Numeric` property.
pub uninterp spec fn char_is_alphanumeric(c: char) -> bool;

/// Calls `char::is_alphanumeric`; its result is a function of `c` alone,
/// named `char_is_alphanumeric`.
#[verifier::external_body]
fn is_alphanumeric(c: char) -> (r: bool)
    ensures
        r == char_is_alphanumeric(c),
{
    c.is_alphanumeric()
}

/// A character that may continue an identifier: alphanumeric or `_`.
pub open spec fn is_word_char(c: char) -> bool {
    char_is_alphanumeric(c) || c == '_'
}

/// The characters of the keyword.
pub open spec fn keyword_chars() -> Seq<char> {
    seq!['u', 'n', 's', 'a', 'f', 'e']
}

/// The keyword starts at position `j` of `s` and stands as a whole word,
/// where `word[i]` tells whether `s[i]` may continue an identifier: the
/// character before it (if any) and the character after it (if any) cannot.
pub open spec fn keyword_at_with(s: Seq<char>, word: Seq<bool>, j: int) -> bool {
    &&& 0 <= j
    &&& j + 6 <= s.len()
    &&& s.subrange(j, j + 6) == keyword_chars()
    &&& (j == 0 || !word[j - 1])
    &&& (j + 6 == s.len() || !word[j + 6])
}

/// Whether each character of `s` may continue an identifier.
pub open spec fn word_flags(s: Seq<char>) -> Seq<bool> {
    s.map_values(|c: char| is_word_char(c))
}

/// The keyword starts at position `j` of `s` and stands as a whole word.
pub open spec fn keyword_at(s: Seq<char>, j: int) -> bool {
    keyword_at_with(s, word_flags(s), j)
}

fn word_char(c: char) -> (r: bool)
    ensures
        r == is_word_char(c),
{
    is_alphanumeric(c) || c == '_'
}

/// Whether the keyword occurs in `chars` as a whole word, where `word[i]`
/// tells whether `chars[i]` may continue an identifier.
pub fn find_keyword(chars: &Vec<char>, word: &Vec<bool>) -> (r: bool)
    requires
        word@.len() == chars@.len(),
    ensures
        r == exists|j: int| keyword_at_with(chars@, word@, j),
{
    let n = chars.len();
    let mut i: usize = 0;
    while i < n
        invariant
            n == chars@.len(),
            word@.len() == n,
            i <= n,
            forall|j: int| 0 <= j < i ==> !keyword_at_with(chars@, word@, j),
        decreases n - i,
    {
        if n - i >= 6 && chars[i] == 'u' && chars[i + 1] == 'n' && chars[i + 2] == 's' && chars[i + 3] == 'a'
            && chars[i + 4] == 'f' && chars[i + 5] == 'e' {
            proof {
                assert(chars@.subrange(i as int, i + 6) =~= keyword_chars());
            }
            let left_ok = i == 0 || !word[i - 1];
            let right_ok = i + 6 == n || !word[i + 6];
            if left_ok && right_ok {
                assert(keyword_at_with(chars@, word@, i as int));
                return true;
            }
        } else {
            proof {
                if i + 6 <= n {
                    let sub = chars@.subrange(i as int, i + 6);
                    if sub == keyword_chars() {
                        assert(chars@[i as int] == sub[0]);
                        assert(chars@[i + 1] == sub[1]);
                        assert(chars@[i + 2] == sub[2]);
                        assert(chars@[i + 3] == sub[3]);
                        assert(chars@[i + 4] == sub[4]);
                        assert(chars@[i + 5] == sub[5]);
                    }
                }
            }
        }
        i = i + 1;
    }
    false
}

/// Whether `text` contains `unsafe` as a keyword rather than as part of an
/// identifier such as `unsafe_fn_name`.
pub fn contains_unsafe_keyword(text: &str) -> (r: bool)
    ensures
        r == exists|j: int| keyword_at(text@, j),
{
    let n = text.unicode_len();
    let mut chars: Vec<char> = Vec::new();
    let mut word: Vec<bool> = Vec::new();
    let mut k: usize = 0;
    while k < n
        invariant
            n == text@.len(),
            k <= n,
            chars@ == text@.take(k as int),
            word@ == word_flags(text@).take(k as int),
        decreases n - k,
    {
        let c = text.get_char(k);
        chars.push(c);
        word.push(word_char(c));
        k = k + 1;
        assert(chars@ =~= text@.take(k as int));
        assert(word@ =~= word_flags(text@).take(k as int));
    }
    assert(chars@ =~= text@);
    assert(word@ =~= word_flags(text@));
    let r = find_keyword(&chars, &word);
    proof {
        if r {
            let j = choose|j: int| keyword_at_with(chars@, word@, j);
            assert(keyword_at(text@, j));
        } else {
            assert forall|j: int| !keyword_at(text@, j) by {
                assert(!keyword_at_with(chars@, word@, j));
            }
        }
    }
    r
}

} // verus!
