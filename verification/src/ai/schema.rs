//! Cleanup of the model's reply before it is read as JSON.

use vstd::prelude::*;

use crate::ai::prompts::{prompt_or_default, prompt_text, RESPONSE_SCHEMA_PROMPT};
use crate::text::{chars_of, is_white_space, lemma_trim_fixed, lemma_trim_idempotent, trim_seq, trim_str};

verus! {

/// Whether `c` occurs in `s`.
pub open spec fn has_char(s: Seq<char>, c: char) -> bool {
    exists|i: int| 0 <= i < s.len() && s[i] == c
}

/// `i` is the first position of `c` in `s`.
pub open spec fn is_first_of(s: Seq<char>, c: char, i: int) -> bool {
    &&& 0 <= i < s.len()
    &&& s[i] == c
    &&& forall|j: int| 0 <= j < i ==> s[j] != c
}

/// `i` is the last position of `c` in `s`.
pub open spec fn is_last_of(s: Seq<char>, c: char, i: int) -> bool {
    &&& 0 <= i < s.len()
    &&& s[i] == c
    &&& forall|j: int| i < j < s.len() ==> s[j] != c
}

/// The first position of `c` in `s` (`str::find`), where it occurs.
pub open spec fn first_of(s: Seq<char>, c: char) -> int {
    choose|i: int| is_first_of(s, c, i)
}

/// The last position of `c` in `s` (`str::rfind`), where it occurs.
pub open spec fn last_of(s: Seq<char>, c: char) -> int {
    choose|i: int| is_last_of(s, c, i)
}

/// The trimmed reply, cut down to the span from its first `{` to its last
/// `}` when it holds both.
pub open spec fn cleaned_output(raw: Seq<char>) -> Seq<char> {
    let t = trim_seq(raw);
    if has_char(t, '{') && has_char(t, '}') {
        t.subrange(first_of(t, '{'), last_of(t, '}') + 1)
    } else {
        t
    }
}

/// The replies that cannot be cut: the last `}` stands before the first
/// `{` with something between them. When the two are neighbours the span
/// between them is empty and the cut gives an empty text.
pub open spec fn braces_reversed(raw: Seq<char>) -> bool {
    let t = trim_seq(raw);
    has_char(t, '{') && has_char(t, '}') && last_of(t, '}') + 1 < first_of(t, '{')
}

proof fn lemma_first_unique(s: Seq<char>, c: char, i: int)
    requires
        is_first_of(s, c, i),
    ensures
        first_of(s, c) == i,
{
    let k = first_of(s, c);
    assert(is_first_of(s, c, k));
    if k < i {
        assert(s[k] != c);
    } else if k > i {
        assert(s[i] != c);
    }
}

proof fn lemma_last_unique(s: Seq<char>, c: char, i: int)
    requires
        is_last_of(s, c, i),
    ensures
        last_of(s, c) == i,
{
    let k = last_of(s, c);
    assert(is_last_of(s, c, k));
    if k < i {
        assert(s[i] != c);
    } else if k > i {
        assert(s[k] != c);
    }
}

proof fn lemma_first_exists(s: Seq<char>, c: char, i: int)
    requires
        0 <= i < s.len(),
        s[i] == c,
    ensures
        is_first_of(s, c, first_of(s, c)),
    decreases i,
{
    if exists|j: int| 0 <= j < i && s[j] == c {
        let j = choose|j: int| 0 <= j < i && s[j] == c;
        lemma_first_exists(s, c, j);
    } else {
        assert(is_first_of(s, c, i));
    }
}

proof fn lemma_last_exists(s: Seq<char>, c: char, i: int)
    requires
        0 <= i < s.len(),
        s[i] == c,
    ensures
        is_last_of(s, c, last_of(s, c)),
    decreases s.len() - i,
{
    if exists|j: int| i < j < s.len() && s[j] == c {
        let j = choose|j: int| i < j < s.len() && s[j] == c;
        lemma_last_exists(s, c, j);
    } else {
        assert(is_last_of(s, c, i));
    }
}

/// The first position of `c` in `v`, if any.
pub fn find_first(v: &Vec<char>, c: char) -> (r: Option<usize>)
    ensures
        r is Some <==> has_char(v@, c),
        r is Some ==> is_first_of(v@, c, r.unwrap() as int) && first_of(v@, c) == r.unwrap(),
{
    let n = v.len();
    for i in 0..n
        invariant
            n == v.len(),
            forall|j: int| 0 <= j < i ==> v@[j] != c,
    {
        if v[i] == c {
            proof {
                lemma_first_unique(v@, c, i as int);
            }
            return Some(i);
        }
    }
    None
}

/// The last position of `c` in `v`, if any.
pub fn find_last(v: &Vec<char>, c: char) -> (r: Option<usize>)
    ensures
        r is Some <==> has_char(v@, c),
        r is Some ==> is_last_of(v@, c, r.unwrap() as int) && last_of(v@, c) == r.unwrap(),
{
    let n = v.len();
    let mut i = n;
    while i > 0
        invariant
            i <= n == v.len(),
            forall|j: int| i <= j < n ==> v@[j] != c,
        decreases i,
    {
        if v[i - 1] == c {
            proof {
                lemma_last_unique(v@, c, i - 1);
            }
            return Some(i - 1);
        }
        i = i - 1;
    }
    None
}

/// Trims the model's reply and keeps the span from its first `{` to its
/// last `}` when it holds both (empty when the last `}` directly precedes
/// the first `{`); a reply whose last `}` comes further before its first
/// `{` is not accepted.
pub fn clean_model_output(raw: &str) -> (r: String)
    requires
        !braces_reversed(raw@),
    ensures
        r@ == cleaned_output(raw@),
{
    let trimmed = trim_str(raw);
    let v = chars_of(trimmed);
    let first = find_first(&v, '{');
    let last = find_last(&v, '}');
    let n = v.len();
    match (first, last) {
        (Some(start), Some(end)) => {
            assert(end < n);
            String::from_str(trimmed.substring_char(start, end + 1))
        },
        _ => String::from_str(trimmed),
    }
}

/// Whether `clean_model_output` accepts `raw`.
pub fn can_clean(raw: &str) -> (b: bool)
    ensures
        b == !braces_reversed(raw@),
{
    let trimmed = trim_str(raw);
    let v = chars_of(trimmed);
    let first = find_first(&v, '{');
    let last = find_last(&v, '}');
    let n = v.len();
    match (first, last) {
        (Some(start), Some(end)) => {
            assert(end < n);
            start <= end + 1
        },
        _ => true,
    }
}

/// Cleaning is idempotent: a cleaned reply is accepted again and cleans to
/// itself.
pub proof fn law_clean_idempotent(raw: Seq<char>)
    requires
        !braces_reversed(raw),
    ensures
        !braces_reversed(cleaned_output(raw)),
        cleaned_output(cleaned_output(raw)) == cleaned_output(raw),
{
    let t = trim_seq(raw);
    lemma_trim_idempotent(raw);
    if has_char(t, '{') && has_char(t, '}') {
        let f = first_of(t, '{');
        let l = last_of(t, '}');
        let i0 = choose|i: int| 0 <= i < t.len() && t[i] == '{';
        lemma_first_exists(t, '{', i0);
        let i1 = choose|i: int| 0 <= i < t.len() && t[i] == '}';
        lemma_last_exists(t, '}', i1);
        let c = t.subrange(f, l + 1);
        if f == l + 1 {
            assert(c.len() == 0);
            lemma_trim_fixed(c);
            assert(!has_char(c, '{'));
        } else {
            assert(c[0] == '{');
            assert(c.last() == '}');
            assert(!is_white_space('{') && !is_white_space('}'));
            lemma_trim_fixed(c);
            assert(is_first_of(c, '{', 0));
            lemma_first_unique(c, '{', 0);
            assert forall|j: int| c.len() - 1 < j < c.len() implies c[j] != '}' by {}
            assert(is_last_of(c, '}', c.len() - 1));
            lemma_last_unique(c, '}', c.len() - 1);
            assert(has_char(c, '{'));
            assert(has_char(c, '}'));
            assert(c.subrange(0, c.len() as int) =~= c);
        }
    }
}

/// The response-schema prompt: the stored prompt file's text when it could
/// be read, else the built-in default.
pub fn response_schema_prompt(stored: Option<String>) -> (r: String)
    ensures
        r@ == prompt_text(RESPONSE_SCHEMA_PROMPT@, stored),
{
    prompt_or_default(RESPONSE_SCHEMA_PROMPT, stored)
}

} // verus!
