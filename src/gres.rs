use vstd::prelude::*;

use crate::text::{
    all_digits, ascii_digits, chars_of, digits_to_usize, digits_value, is_digit, slice_chars,
};

verus! {

/// Whether a character outside ASCII is a word character: `\w` of the
/// regex crate, which takes letters, marks, digits and connector
/// punctuation of every script.
pub uninterp spec fn word_char_of(c: char) -> bool;

/// Whether a character outside ASCII is a decimal digit: `\d` of the regex
/// crate, any character of the Unicode class `Nd`.
pub uninterp spec fn digit_char_of(c: char) -> bool;

/// A word character: within ASCII a letter, a digit or `_`; beyond ASCII
/// what the regex crate's `\w` takes.
pub open spec fn is_word_char(c: char) -> bool {
    ||| ('a' <= c && c <= 'z')
    ||| ('A' <= c && c <= 'Z')
    ||| ('0' <= c && c <= '9')
    ||| c == '_'
    ||| (c as u32 >= 128 && word_char_of(c))
}

/// A digit of the count: within ASCII `0` to `9`; beyond ASCII what the
/// regex crate's `\d` takes. Only ASCII digits make a readable count.
pub open spec fn is_count_digit(c: char) -> bool {
    is_digit(c) || (c as u32 >= 128 && digit_char_of(c))
}

/// Relies on regex::Regex::is_match: whether `c` alone matches `\w`.
#[verifier::external_body]
fn regex_word_char(c: char) -> (r: bool)
    ensures
        r == word_char_of(c),
{
    let mut buf = [0u8; 4];
    regex::Regex::new(r"\A\w\z").unwrap().is_match(c.encode_utf8(&mut buf))
}

/// Relies on regex::Regex::is_match: whether `c` alone matches `\d`.
#[verifier::external_body]
fn regex_digit_char(c: char) -> (r: bool)
    ensures
        r == digit_char_of(c),
{
    let mut buf = [0u8; 4];
    regex::Regex::new(r"\A\d\z").unwrap().is_match(c.encode_utf8(&mut buf))
}

/// Tells whether `c` is a word character.
pub fn word_char(c: char) -> (r: bool)
    ensures
        r == is_word_char(c),
{
    if (c as u32) < 128 {
        ('a' <= c && c <= 'z') || ('A' <= c && c <= 'Z') || ('0' <= c && c <= '9') || c == '_'
    } else {
        regex_word_char(c)
    }
}

/// Tells whether `c` is a digit of the count.
pub fn count_digit(c: char) -> (r: bool)
    ensures
        r == is_count_digit(c),
{
    if (c as u32) < 128 {
        '0' <= c && c <= '9'
    } else {
        regex_digit_char(c)
    }
}

/// The end of the run of word characters that starts at `i`.
pub open spec fn word_end(s: Seq<char>, i: int) -> int
    decreases s.len() - i,
{
    if 0 <= i < s.len() && is_word_char(s[i]) {
        word_end(s, i + 1)
    } else {
        i
    }
}

/// The end of the run of ASCII digits that starts at `i`.
pub open spec fn digit_end(s: Seq<char>, i: int) -> int
    decreases s.len() - i,
{
    if 0 <= i < s.len() && is_digit(s[i]) {
        digit_end(s, i + 1)
    } else {
        i
    }
}

/// The end of the run of count digits that starts at `i`.
pub open spec fn count_end(s: Seq<char>, i: int) -> int
    decreases s.len() - i,
{
    if 0 <= i < s.len() && is_count_digit(s[i]) {
        count_end(s, i + 1)
    } else {
        i
    }
}

/// The index of the colon that ends the model which starts at `i`.
pub open spec fn model_end(s: Seq<char>, i: int) -> int {
    word_end(s, word_end(s, i) + 1)
}

/// The descriptor grammar `<word>:<word>:<digits>` matches starting at `i`.
pub open spec fn match_at(s: Seq<char>, i: int) -> bool {
    let j = word_end(s, i);
    let k = model_end(s, i);
    &&& i < j < s.len()
    &&& s[j] == ':'
    &&& j + 1 < k < s.len()
    &&& s[k] == ':'
    &&& k + 1 < s.len()
    &&& is_count_digit(s[k + 1])
}

/// The leftmost index at or after `i` where the grammar matches.
pub open spec fn first_match_from(s: Seq<char>, i: int) -> Option<int>
    decreases s.len() - i,
{
    if i < 0 || i >= s.len() {
        None
    } else if match_at(s, i) {
        Some(i)
    } else {
        first_match_from(s, i + 1)
    }
}

/// The model of the match at `i`: `<word>:<word>`.
pub open spec fn match_model(s: Seq<char>, i: int) -> Seq<char> {
    s.subrange(i, model_end(s, i))
}

/// The digits of the count of the match at `i`.
pub open spec fn match_count(s: Seq<char>, i: int) -> Seq<char> {
    let k = model_end(s, i);
    s.subrange(k + 1, count_end(s, k + 1))
}

/// The descriptors that stand for "no resource": empty, or `(null)`.
pub open spec fn is_null_descriptor(s: Seq<char>) -> bool {
    s.len() == 0 || s == "(null)"@
}

/// The model and count that a descriptor holds, or `None` where it does not
/// parse: no match of the grammar, or a count that holds a digit beyond
/// ASCII or whose value is beyond `usize`.
pub open spec fn gres_of(s: Seq<char>) -> Option<(Seq<char>, nat)> {
    if is_null_descriptor(s) {
        Some((Seq::empty(), 0))
    } else {
        match first_match_from(s, 0) {
            Some(i) => if all_digits(match_count(s, i)) && digits_value(match_count(s, i))
                <= usize::MAX {
                Some((match_model(s, i), digits_value(match_count(s, i))))
            } else {
                None
            },
            None => None,
        }
    }
}

/// A descriptor that does not follow the grammar, kept whole.
#[derive(Debug, PartialEq, Eq)]
pub struct ParseError {
    pub input: String,
}

/// The resource model and count that a GRES descriptor names.
#[derive(Debug, PartialEq, Eq)]
pub struct GresStatus {
    pub model: String,
    pub count: usize,
}

pub fn word_end_exec(v: &Vec<char>, i: usize) -> (r: usize)
    requires
        i <= v@.len(),
    ensures
        r as int == word_end(v@, i as int),
        i <= r <= v@.len(),
{
    let mut j: usize = i;
    while j < v.len() && word_char(v[j])
        invariant
            i <= j <= v@.len(),
            word_end(v@, i as int) == word_end(v@, j as int),
        decreases v@.len() - j,
    {
        j = j + 1;
    }
    j
}

/// The end of the run of ASCII digits that starts at `i`.
pub fn digit_end_exec(v: &Vec<char>, i: usize) -> (r: usize)
    requires
        i <= v@.len(),
    ensures
        r as int == digit_end(v@, i as int),
        i <= r <= v@.len(),
{
    let mut j: usize = i;
    while j < v.len() && '0' <= v[j] && v[j] <= '9'
        invariant
            i <= j <= v@.len(),
            digit_end(v@, i as int) == digit_end(v@, j as int),
        decreases v@.len() - j,
    {
        j = j + 1;
    }
    j
}

fn count_end_exec(v: &Vec<char>, i: usize) -> (r: usize)
    requires
        i <= v@.len(),
    ensures
        r as int == count_end(v@, i as int),
        i <= r <= v@.len(),
{
    let mut j: usize = i;
    while j < v.len() && count_digit(v[j])
        invariant
            i <= j <= v@.len(),
            count_end(v@, i as int) == count_end(v@, j as int),
        decreases v@.len() - j,
    {
        j = j + 1;
    }
    j
}

fn match_at_exec(v: &Vec<char>, i: usize) -> (r: bool)
    requires
        i < v@.len(),
    ensures
        r == match_at(v@, i as int),
{
    let j = word_end_exec(v, i);
    if !(i < j && j < v.len() && v[j] == ':') {
        return false;
    }
    let k = word_end_exec(v, j + 1);
    j + 1 < k && k < v.len() && v[k] == ':' && k + 1 < v.len() && count_digit(v[k + 1])
}

fn same_chars(a: &Vec<char>, b: &Vec<char>) -> (r: bool)
    ensures
        r == (a@ == b@),
{
    if a.len() != b.len() {
        return false;
    }
    let mut i: usize = 0;
    while i < a.len()
        invariant
            a@.len() == b@.len(),
            i <= a@.len(),
            forall|m: int| 0 <= m < i ==> a@[m] == b@[m],
        decreases a@.len() - i,
    {
        if a[i] != b[i] {
            return false;
        }
        i = i + 1;
    }
    assert(a@ =~= b@);
    true
}

impl GresStatus {
    /// Reads a GRES descriptor such as `gpu:a100:4(IDX:0-3)`: the model is
    /// the first `<word>:<word>` followed by `:<digits>`, the count those
    /// digits. An empty descriptor and `(null)` give no model and count zero.
    pub fn from_str(s: &str) -> (r: Result<GresStatus, ParseError>)
        ensures
            r is Ok <==> gres_of(s@) is Some,
            r matches Ok(g) ==> gres_of(s@) == Some((g.model@, g.count as nat)),
            r matches Err(e) ==> e.input@ == s@,
    {
        let v = chars_of(s);
        let null_marker = chars_of("(null)");
        if v.len() == 0 || same_chars(&v, &null_marker) {
            let g = GresStatus { model: String::new(), count: 0 };
            assert(g.model@ =~= Seq::<char>::empty());
            return Ok(g);
        }
        let mut i: usize = 0;
        while i < v.len()
            invariant
                v@ == s@,
                !is_null_descriptor(v@),
                i <= v@.len(),
                first_match_from(v@, 0) == first_match_from(v@, i as int),
            decreases v@.len() - i,
        {
            if match_at_exec(&v, i) {
                let j = word_end_exec(&v, i);
                let k = word_end_exec(&v, j + 1);
                let e = count_end_exec(&v, k + 1);
                let digits = slice_chars(&v, k + 1, e);
                if !ascii_digits(&digits) {
                    return Err(ParseError { input: String::from_str(s) });
                }
                match digits_to_usize(&digits) {
                    Some(count) => {
                        let model = String::from_str(s.substring_char(i, k));
                        return Ok(GresStatus { model, count });
                    },
                    None => {
                        return Err(ParseError { input: String::from_str(s) });
                    },
                }
            }
            i = i + 1;
        }
        Err(ParseError { input: String::from_str(s) })
    }
}

proof fn lemma_word_end_at(s: Seq<char>, i: int, j: int)
    requires
        0 <= i <= j <= s.len(),
        forall|m: int| i <= m < j ==> is_word_char(#[trigger] s[m]),
        j == s.len() || !is_word_char(s[j]),
    ensures
        word_end(s, i) == j,
    decreases j - i,
{
    if i < j {
        lemma_word_end_at(s, i + 1, j);
    }
}

proof fn lemma_count_end_at(s: Seq<char>, i: int, j: int)
    requires
        0 <= i <= j <= s.len(),
        forall|m: int| i <= m < j ==> is_count_digit(#[trigger] s[m]),
        j == s.len() || !is_count_digit(s[j]),
    ensures
        count_end(s, i) == j,
    decreases j - i,
{
    if i < j {
        lemma_count_end_at(s, i + 1, j);
    }
}

/// A descriptor made of two words, a colon between them, a colon and a run of
/// digits, then any text that does not go on with a digit, reads as the model
/// `<word>:<word>` with the value of the digits as its count.
pub proof fn lemma_descriptor_reads_back(m1: Seq<char>, m2: Seq<char>, n: Seq<char>, t: Seq<char>)
    requires
        m1.len() > 0,
        m2.len() > 0,
        forall|i: int| 0 <= i < m1.len() ==> is_word_char(#[trigger] m1[i]),
        forall|i: int| 0 <= i < m2.len() ==> is_word_char(#[trigger] m2[i]),
        n.len() > 0,
        all_digits(n),
        digits_value(n) <= usize::MAX,
        t.len() == 0 || !is_count_digit(t[0]),
    ensures
        gres_of(m1 + seq![':'] + m2 + seq![':'] + n + t) == Some(
            (m1 + seq![':'] + m2, digits_value(n)),
        ),
{
    let s = m1 + seq![':'] + m2 + seq![':'] + n + t;
    let j = m1.len() as int;
    let k = j + 1 + m2.len();
    let e = k + 1 + n.len();
    assert(s[j] == ':');
    assert(s[k] == ':');
    assert forall|m: int| 0 <= m < j implies is_word_char(#[trigger] s[m]) by {
        assert(s[m] == m1[m]);
    }
    lemma_word_end_at(s, 0, j);
    assert forall|m: int| j + 1 <= m < k implies is_word_char(#[trigger] s[m]) by {
        assert(s[m] == m2[m - j - 1]);
    }
    lemma_word_end_at(s, j + 1, k);
    assert forall|m: int| k + 1 <= m < e implies is_count_digit(#[trigger] s[m]) by {
        assert(s[m] == n[m - k - 1]);
    }
    if e < s.len() {
        assert(s[e] == t[0]);
    }
    lemma_count_end_at(s, k + 1, e);
    assert(s[k + 1] == n[0]);
    assert(match_at(s, 0));
    reveal_strlit("(null)");
    if s == "(null)"@ {
        assert(s[j] == ':');
        assert(0 <= j < 6);
        assert(false);
    }
    assert(!is_null_descriptor(s));
    assert(first_match_from(s, 0) == Some(0int));
    assert(match_model(s, 0) =~= m1 + seq![':'] + m2);
    assert(match_count(s, 0) =~= n);
}

/// The empty descriptor and `(null)` read as no model and count zero.
pub proof fn lemma_null_descriptors()
    ensures
        gres_of(Seq::empty()) == Some((Seq::<char>::empty(), 0nat)),
        gres_of("(null)"@) == Some((Seq::<char>::empty(), 0nat)),
{
}

} // verus!
