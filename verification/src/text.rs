//! Character classes and the text operations that the protocol and the
//! configuration rules are written in.
use vstd::prelude::*;
use vstd::std_specs::iter::IteratorSpec;

verus! {

broadcast use vstd::string::group_string_axioms;

/// Unicode `White_Space`: the characters that `char::is_whitespace` accepts.
pub open spec fn is_white_space(c: char) -> bool {
    let u = c as u32;
    ||| 0x09 <= u <= 0x0d
    ||| u == 0x20
    ||| u == 0x85
    ||| u == 0xa0
    ||| u == 0x1680
    ||| 0x2000 <= u <= 0x200a
    ||| u == 0x2028
    ||| u == 0x2029
    ||| u == 0x202f
    ||| u == 0x205f
    ||| u == 0x3000
}

/// Unicode general category `Cc`: the characters that `char::is_control` accepts.
pub open spec fn is_control_char(c: char) -> bool {
    let u = c as u32;
    u <= 0x1f || 0x7f <= u <= 0x9f
}

/// Whether `c` is white space in the sense of `char::is_whitespace`.
pub fn is_whitespace(c: char) -> (r: bool)
    ensures
        r == is_white_space(c),
{
    let u = c as u32;
    (0x09 <= u && u <= 0x0d) || u == 0x20 || u == 0x85 || u == 0xa0 || u == 0x1680 || (0x2000
        <= u && u <= 0x200a) || u == 0x2028 || u == 0x2029 || u == 0x202f || u == 0x205f || u
        == 0x3000
}

/// Whether `c` is a control character in the sense of `char::is_control`.
pub fn is_control(c: char) -> (r: bool)
    ensures
        r == is_control_char(c),
{
    let u = c as u32;
    u <= 0x1f || (0x7f <= u && u <= 0x9f)
}

/// The first position at or after `i` that does not hold white space.
pub open spec fn skip_ws(s: Seq<char>, i: int) -> int
    decreases s.len() - i,
{
    if 0 <= i < s.len() && is_white_space(s[i]) {
        skip_ws(s, i + 1)
    } else {
        i
    }
}

/// The first position at or after `i` that holds white space (or the end).
pub open spec fn word_end(s: Seq<char>, i: int) -> int
    decreases s.len() - i,
{
    if 0 <= i < s.len() && !is_white_space(s[i]) {
        word_end(s, i + 1)
    } else {
        i
    }
}

/// Moving back from `j`, the first position not preceded by white space,
/// stopping at `lo`.
pub open spec fn back_ws(s: Seq<char>, j: int, lo: int) -> int
    decreases j - lo,
{
    if lo < j <= s.len() && is_white_space(s[j - 1]) {
        back_ws(s, j - 1, lo)
    } else {
        j
    }
}

/// `s` without leading and trailing white space (`str::trim`).
pub open spec fn trim(s: Seq<char>) -> Seq<char> {
    let a = skip_ws(s, 0);
    s.subrange(a, back_ws(s, s.len() as int, a))
}

/// `s` without trailing white space (`str::trim_end`).
pub open spec fn trim_end(s: Seq<char>) -> Seq<char> {
    s.subrange(0, back_ws(s, s.len() as int, 0))
}

/// The white-space separated words of `s` from position `i` on.
pub open spec fn words_from(s: Seq<char>, i: int) -> Seq<Seq<char>>
    decreases s.len() - i,
{
    let a = skip_ws(s, i);
    if 0 <= i && a < s.len() {
        let b = word_end(s, a);
        if i <= a < b <= s.len() {
            seq![s.subrange(a, b)] + words_from(s, b)
        } else {
            Seq::empty()
        }
    } else {
        Seq::empty()
    }
}

/// The white-space separated words of `s` (`str::split_whitespace`).
pub open spec fn words(s: Seq<char>) -> Seq<Seq<char>> {
    words_from(s, 0)
}

pub proof fn lemma_skip_ws_bounds(s: Seq<char>, i: int)
    requires
        0 <= i <= s.len(),
    ensures
        i <= skip_ws(s, i) <= s.len(),
        forall|k: int| i <= k < skip_ws(s, i) ==> is_white_space(#[trigger] s[k]),
        skip_ws(s, i) < s.len() ==> !is_white_space(s[skip_ws(s, i)]),
    decreases s.len() - i,
{
    if i < s.len() && is_white_space(s[i]) {
        lemma_skip_ws_bounds(s, i + 1);
    }
}

pub proof fn lemma_word_end_bounds(s: Seq<char>, i: int)
    requires
        0 <= i <= s.len(),
    ensures
        i <= word_end(s, i) <= s.len(),
        forall|k: int| i <= k < word_end(s, i) ==> !is_white_space(#[trigger] s[k]),
        word_end(s, i) < s.len() ==> is_white_space(s[word_end(s, i)]),
    decreases s.len() - i,
{
    if i < s.len() && !is_white_space(s[i]) {
        lemma_word_end_bounds(s, i + 1);
    }
}

pub proof fn lemma_back_ws_bounds(s: Seq<char>, j: int, lo: int)
    requires
        0 <= lo <= j <= s.len(),
    ensures
        lo <= back_ws(s, j, lo) <= j,
        forall|k: int| back_ws(s, j, lo) <= k < j ==> is_white_space(#[trigger] s[k]),
        back_ws(s, j, lo) > lo ==> !is_white_space(s[back_ws(s, j, lo) - 1]),
    decreases j - lo,
{
    if lo < j && is_white_space(s[j - 1]) {
        lemma_back_ws_bounds(s, j - 1, lo);
    }
}

pub proof fn lemma_skip_ws_at(s: Seq<char>, i: int, j: int)
    requires
        0 <= i <= j <= s.len(),
        forall|k: int| i <= k < j ==> is_white_space(#[trigger] s[k]),
        j == s.len() || !is_white_space(s[j]),
    ensures
        skip_ws(s, i) == j,
    decreases j - i,
{
    if i < j {
        lemma_skip_ws_at(s, i + 1, j);
    }
}

pub proof fn lemma_word_end_at(s: Seq<char>, i: int, j: int)
    requires
        0 <= i <= j <= s.len(),
        forall|k: int| i <= k < j ==> !is_white_space(#[trigger] s[k]),
        j == s.len() || is_white_space(s[j]),
    ensures
        word_end(s, i) == j,
    decreases j - i,
{
    if i < j {
        lemma_word_end_at(s, i + 1, j);
    }
}

pub proof fn lemma_back_ws_at(s: Seq<char>, j: int, lo: int, m: int)
    requires
        0 <= lo <= m <= j <= s.len(),
        forall|k: int| m <= k < j ==> is_white_space(#[trigger] s[k]),
        m == lo || !is_white_space(s[m - 1]),
    ensures
        back_ws(s, j, lo) == m,
    decreases j - m,
{
    if m < j {
        lemma_back_ws_at(s, j - 1, lo, m);
    }
}

/// A sequence with no white space at either end is its own trim.
pub proof fn lemma_trim_clean(s: Seq<char>)
    requires
        s.len() > 0,
        !is_white_space(s[0]),
        !is_white_space(s[s.len() - 1]),
    ensures
        trim(s) == s,
{
    lemma_skip_ws_at(s, 0, 0);
    lemma_back_ws_at(s, s.len() as int, 0, s.len() as int);
    assert(s.subrange(0, s.len() as int) =~= s);
}

/// A non-empty sequence that is its own trim has no white space at either end.
pub proof fn lemma_trimmed_ends(s: Seq<char>)
    requires
        s.len() > 0,
        trim(s) == s,
    ensures
        !is_white_space(s[0]),
        !is_white_space(s[s.len() - 1]),
{
    lemma_skip_ws_bounds(s, 0);
    let a = skip_ws(s, 0);
    lemma_back_ws_bounds(s, s.len() as int, a);
    let b = back_ws(s, s.len() as int, a);
    assert(trim(s).len() == b - a);
}

/// A sequence with white space nowhere.
pub open spec fn no_white_space(s: Seq<char>) -> bool {
    forall|k: int| 0 <= k < s.len() ==> !is_white_space(#[trigger] s[k])
}

/// A word alone is split into itself.
pub proof fn lemma_words_single(v: Seq<char>)
    requires
        v.len() > 0,
        no_white_space(v),
    ensures
        words(v) == seq![v],
{
    lemma_skip_ws_at(v, 0, 0);
    lemma_word_end_at(v, 0, v.len() as int);
    lemma_skip_ws_at(v, v.len() as int, v.len() as int);
    assert(words_from(v, v.len() as int) =~= Seq::<Seq<char>>::empty());
    assert(v.subrange(0, v.len() as int) =~= v);
    assert(words(v) =~= seq![v]);
}

/// Two words joined by one space are split into those two words.
pub proof fn lemma_words_pair(a: Seq<char>, b: Seq<char>)
    requires
        a.len() > 0,
        b.len() > 0,
        no_white_space(a),
        no_white_space(b),
    ensures
        words(a + seq![' '] + b) == seq![a, b],
{
    let s = a + seq![' '] + b;
    let n = a.len() as int;
    assert(is_white_space(' '));
    assert(s[n] == ' ');
    assert forall|k: int| 0 <= k < n implies !is_white_space(#[trigger] s[k]) by {
        assert(s[k] == a[k]);
    }
    assert forall|k: int| n + 1 <= k < s.len() implies !is_white_space(#[trigger] s[k]) by {
        assert(s[k] == b[k - n - 1]);
    }
    lemma_skip_ws_at(s, 0, 0);
    lemma_word_end_at(s, 0, n);
    lemma_skip_ws_at(s, n, n + 1);
    lemma_word_end_at(s, n + 1, s.len() as int);
    lemma_skip_ws_at(s, s.len() as int, s.len() as int);
    assert(words_from(s, s.len() as int) =~= Seq::<Seq<char>>::empty());
    assert(s.subrange(0, n) =~= a);
    assert(s.subrange(n + 1, s.len() as int) =~= b);
    assert(words_from(s, n) =~= seq![b]);
    assert(words(s) =~= seq![a, b]);
}

/// A sequence that starts with a character other than white space has at
/// least one word.
pub proof fn lemma_words_nonempty(r: Seq<char>)
    requires
        r.len() > 0,
        !is_white_space(r[0]),
    ensures
        words(r).len() >= 1,
{
    lemma_skip_ws_at(r, 0, 0);
    lemma_word_end_bounds(r, 0);
}

/// `kw`, a space and `rest`: the first word is `kw`, and what follows it,
/// trimmed, is `rest`.
pub proof fn lemma_split_first_word(kw: Seq<char>, rest: Seq<char>)
    requires
        kw.len() > 0,
        no_white_space(kw),
        rest.len() > 0,
        !is_white_space(rest[0]),
        !is_white_space(rest[rest.len() - 1]),
    ensures
        ({
            let s = kw + seq![' '] + rest;
            let t = trim(s);
            &&& t == s
            &&& word_end(t, 0) == kw.len()
            &&& t.subrange(0, kw.len() as int) == kw
            &&& trim(t.subrange(kw.len() as int, t.len() as int)) == rest
        }),
{
    let s = kw + seq![' '] + rest;
    let n = kw.len() as int;
    assert(is_white_space(' '));
    assert(s[0] == kw[0]);
    assert(s[s.len() - 1] == rest[rest.len() - 1]);
    lemma_trim_clean(s);
    assert forall|k: int| 0 <= k < n implies !is_white_space(#[trigger] s[k]) by {
        assert(s[k] == kw[k]);
    }
    assert(s[n] == ' ');
    lemma_word_end_at(s, 0, n);
    assert(s.subrange(0, n) =~= kw);
    let u = s.subrange(n, s.len() as int);
    assert(u =~= seq![' '] + rest);
    assert(u[0] == ' ');
    assert(u[u.len() - 1] == rest[rest.len() - 1]);
    assert(u[1] == rest[0]);
    lemma_skip_ws_at(u, 0, 1);
    lemma_back_ws_at(u, u.len() as int, 1, u.len() as int);
    assert(u.subrange(1, u.len() as int) =~= rest);
}

/// A single word alone on a line: it is the command, with nothing after it.
pub proof fn lemma_lone_word(kw: Seq<char>)
    requires
        kw.len() > 0,
        no_white_space(kw),
    ensures
        trim(kw) == kw,
        word_end(kw, 0) == kw.len(),
        kw.subrange(0, kw.len() as int) == kw,
        trim(kw.subrange(kw.len() as int, kw.len() as int)) == Seq::<char>::empty(),
{
    lemma_trim_clean(kw);
    lemma_word_end_at(kw, 0, kw.len() as int);
    assert(kw.subrange(0, kw.len() as int) =~= kw);
    let e = kw.subrange(kw.len() as int, kw.len() as int);
    assert(e =~= Seq::<char>::empty());
    lemma_skip_ws_at(e, 0, 0);
    assert(trim(e) =~= Seq::<char>::empty());
}

/// The characters of a string slice, in order.
pub fn chars_of(s: &str) -> (v: Vec<char>)
    ensures
        v@ == s@,
{
    let mut v: Vec<char> = Vec::new();
    for c in it: s.chars()
        invariant
            v@ == it.seq().take(it.index()),
            it.seq() == s@,
    {
        v.push(c);
    }
    v
}

/// Whether two character sequences are equal.
pub fn chars_eq(a: &[char], b: &[char]) -> (r: bool)
    ensures
        r == (a@ == b@),
{
    if a.len() != b.len() {
        return false;
    }
    let mut i: usize = 0;
    while i < a.len()
        invariant
            a@.len() == b@.len(),
            0 <= i <= a@.len(),
            forall|k: int| 0 <= k < i ==> a@[k] == b@[k],
        decreases a.len() - i,
    {
        if a[i] != b[i] {
            return false;
        }
        i = i + 1;
    }
    assert(a@ =~= b@);
    true
}

/// Whether a string slice equals another, character by character.
pub fn str_eq(a: &str, b: &str) -> (r: bool)
    ensures
        r == (a@ == b@),
{
    let x = chars_of(a);
    let y = chars_of(b);
    chars_eq(x.as_slice(), y.as_slice())
}

/// `skip_ws` on a character vector.
pub fn skip_ws_from(s: &[char], i: usize) -> (a: usize)
    requires
        i <= s@.len(),
    ensures
        a == skip_ws(s@, i as int),
        i <= a <= s@.len(),
{
    let mut j = i;
    while j < s.len() && is_whitespace(s[j])
        invariant
            i <= j <= s@.len(),
            skip_ws(s@, i as int) == skip_ws(s@, j as int),
        decreases s.len() - j,
    {
        j = j + 1;
    }
    j
}

/// `word_end` on a character vector.
pub fn word_end_from(s: &[char], i: usize) -> (b: usize)
    requires
        i <= s@.len(),
    ensures
        b == word_end(s@, i as int),
        i <= b <= s@.len(),
{
    let mut j = i;
    while j < s.len() && !is_whitespace(s[j])
        invariant
            i <= j <= s@.len(),
            word_end(s@, i as int) == word_end(s@, j as int),
        decreases s.len() - j,
    {
        j = j + 1;
    }
    j
}

/// `back_ws` on a character vector.
pub fn back_ws_from(s: &[char], j: usize, lo: usize) -> (b: usize)
    requires
        lo <= j <= s@.len(),
    ensures
        b == back_ws(s@, j as int, lo as int),
        lo <= b <= j,
{
    let mut k = j;
    while k > lo && is_whitespace(s[k - 1])
        invariant
            lo <= k <= j,
            j <= s@.len(),
            back_ws(s@, j as int, lo as int) == back_ws(s@, k as int, lo as int),
        decreases k,
    {
        k = k - 1;
    }
    k
}

/// The bounds of `trim(s)` within `s`.
pub fn trim_bounds(s: &[char]) -> (r: (usize, usize))
    ensures
        r.0 <= r.1 <= s@.len(),
        trim(s@) == s@.subrange(r.0 as int, r.1 as int),
        r.0 == skip_ws(s@, 0),
{
    let a = skip_ws_from(s, 0);
    let b = back_ws_from(s, s.len(), a);
    (a, b)
}

/// The characters `s[from..to]` as a `String`.
pub fn substring(s: &str, from: usize, to: usize) -> (r: String)
    requires
        from <= to <= s@.len(),
    ensures
        r@ == s@.subrange(from as int, to as int),
{
    String::from_str(s.substring_char(from, to))
}

/// The white-space separated words of `s`, each as a `String`
/// (`str::split_whitespace`).
pub fn split_words(s: &str) -> (r: Vec<String>)
    ensures
        r@.len() == words(s@).len(),
        forall|k: int| 0 <= k < r@.len() ==> #[trigger] r@[k]@ == words(s@)[k],
{
    let cs = chars_of(s);
    let mut out: Vec<String> = Vec::new();
    let mut i: usize = 0;
    let ghost acc: Seq<Seq<char>> = Seq::empty();
    while i < cs.len()
        invariant
            cs@ == s@,
            i <= cs@.len(),
            words(s@) == acc + words_from(s@, i as int),
            out@.len() == acc.len(),
            forall|k: int| 0 <= k < out@.len() ==> #[trigger] out@[k]@ == acc[k],
        decreases cs.len() - i,
    {
        let a = skip_ws_from(cs.as_slice(), i);
        if a >= cs.len() {
            assert(words_from(s@, i as int) =~= Seq::<Seq<char>>::empty());
            i = cs.len();
            assert(words_from(s@, i as int) =~= Seq::<Seq<char>>::empty());
        } else {
            let b = word_end_from(cs.as_slice(), a);
            proof {
                lemma_skip_ws_bounds(s@, i as int);
                lemma_word_end_bounds(s@, a as int);
            }
            assert(b > a);
            let w = substring(s, a, b);
            proof {
                assert(words_from(s@, i as int) == seq![s@.subrange(a as int, b as int)]
                    + words_from(s@, b as int));
                acc = acc.push(s@.subrange(a as int, b as int));
            }
            out.push(w);
            i = b;
        }
    }
    assert(words_from(s@, i as int) =~= Seq::<Seq<char>>::empty());
    assert(acc + Seq::<Seq<char>>::empty() =~= acc);
    out
}

/// An ASCII decimal digit.
pub open spec fn is_digit(c: char) -> bool {
    0x30 <= (c as u32) <= 0x39
}

/// A sign character.
pub open spec fn is_sign(c: char) -> bool {
    c == '+' || c == '-'
}

/// ASCII lower-casing of one character.
pub open spec fn ascii_lower(c: char) -> char {
    if 0x41 <= (c as u32) <= 0x5a {
        ((c as u32) + 32) as char
    } else {
        c
    }
}

/// The first position at or after `i` that does not hold a digit.
pub open spec fn digits_end(s: Seq<char>, i: int) -> int
    decreases s.len() - i,
{
    if 0 <= i < s.len() && is_digit(s[i]) {
        digits_end(s, i + 1)
    } else {
        i
    }
}

/// `s` lower-cased (ASCII letters only).
pub open spec fn lower_seq(s: Seq<char>) -> Seq<char> {
    s.map_values(|c: char| ascii_lower(c))
}

/// The special values of the float grammar: `inf`, `infinity`, `nan`,
/// in any letter case.
pub open spec fn float_special(b: Seq<char>) -> bool {
    let l = lower_seq(b);
    ||| l == seq!['i', 'n', 'f']
    ||| l == seq!['i', 'n', 'f', 'i', 'n', 'i', 't', 'y']
    ||| l == seq!['n', 'a', 'n']
}

/// `Exp ::= 'e' Sign? Digit+`, from position `k` (just after the `e`) to the end.
pub open spec fn exponent_tail(b: Seq<char>, k: int) -> bool {
    let k2 = if 0 <= k < b.len() && is_sign(b[k]) {
        k + 1
    } else {
        k
    };
    let k3 = digits_end(b, k2);
    k2 < k3 && k3 == b.len()
}

/// `Number ::= (Digit+ | Digit+ '.' Digit* | Digit* '.' Digit+) Exp?`
pub open spec fn float_number(b: Seq<char>) -> bool {
    let i1 = digits_end(b, 0);
    let dot = 0 <= i1 < b.len() && b[i1] == '.';
    let i2 = if dot {
        digits_end(b, i1 + 1)
    } else {
        i1
    };
    let n_digits = if dot {
        i1 + (i2 - i1 - 1)
    } else {
        i1
    };
    &&& n_digits > 0
    &&& (i2 == b.len() || (0 <= i2 < b.len() && ascii_lower(b[i2]) == 'e' && exponent_tail(
        b,
        i2 + 1,
    )))
}

/// The text of a decimal floating-point number as the standard library
/// parses it: `Sign? ('inf' | 'infinity' | 'nan' | Number)`, letters in any
/// case, no surrounding white space.
pub open spec fn is_float_literal(s: Seq<char>) -> bool {
    let b = if s.len() > 0 && is_sign(s[0]) {
        s.drop_first()
    } else {
        s
    };
    float_special(b) || float_number(b)
}

proof fn lemma_digits_end_bounds(s: Seq<char>, i: int)
    requires
        0 <= i <= s.len(),
    ensures
        i <= digits_end(s, i) <= s.len(),
        forall|k: int| i <= k < digits_end(s, i) ==> is_digit(#[trigger] s[k]),
    decreases s.len() - i,
{
    if i < s.len() && is_digit(s[i]) {
        lemma_digits_end_bounds(s, i + 1);
    }
}

/// The text of a number is never empty and holds no white space.
pub proof fn lemma_float_literal_clean(v: Seq<char>)
    requires
        is_float_literal(v),
    ensures
        v.len() > 0,
        no_white_space(v),
{
    let signed = v.len() > 0 && is_sign(v[0]);
    let b = if signed {
        v.drop_first()
    } else {
        v
    };
    assert(no_white_space(b) && b.len() > 0) by {
        if float_special(b) {
            let l = lower_seq(b);
            assert(l.len() == b.len());
            assert(l.len() > 0);
            assert forall|k: int| 0 <= k < b.len() implies !is_white_space(#[trigger] b[k]) by {
                assert(l[k] == ascii_lower(b[k]));
                assert(0x61 <= (l[k] as u32) <= 0x7a);
            }
        } else {
            assert(float_number(b));
            let i1 = digits_end(b, 0);
            lemma_digits_end_bounds(b, 0);
            let dot = 0 <= i1 < b.len() && b[i1] == '.';
            let i2 = if dot {
                digits_end(b, i1 + 1)
            } else {
                i1
            };
            if dot {
                lemma_digits_end_bounds(b, i1 + 1);
            }
            assert(b.len() > 0);
            if i2 < b.len() {
                let k = i2 + 1;
                let k2 = if 0 <= k < b.len() && is_sign(b[k]) {
                    k + 1
                } else {
                    k
                };
                lemma_digits_end_bounds(b, k2);
            }
            assert forall|k: int| 0 <= k < b.len() implies !is_white_space(#[trigger] b[k]) by {
                if k < i1 {
                    assert(is_digit(b[k]));
                } else if k < i2 {
                    if k > i1 {
                        assert(is_digit(b[k]));
                    }
                } else if k == i2 {
                    assert(ascii_lower(b[k]) == 'e');
                } else {
                    let j = i2 + 1;
                    let j2 = if 0 <= j < b.len() && is_sign(b[j]) {
                        j + 1
                    } else {
                        j
                    };
                    if k >= j2 {
                        assert(is_digit(b[k]));
                    }
                }
            }
        }
    }
    if signed {
        assert forall|k: int| 0 <= k < v.len() implies !is_white_space(#[trigger] v[k]) by {
            if k > 0 {
                assert(v[k] == b[k - 1]);
            }
        }
    }
}

fn digits_end_from(s: &[char], i: usize) -> (b: usize)
    requires
        i <= s@.len(),
    ensures
        b == digits_end(s@, i as int),
        i <= b <= s@.len(),
{
    let mut j = i;
    while j < s.len() && (0x30 <= (s[j] as u32) && (s[j] as u32) <= 0x39)
        invariant
            i <= j <= s@.len(),
            digits_end(s@, i as int) == digits_end(s@, j as int),
        decreases s.len() - j,
    {
        j = j + 1;
    }
    j
}

/// Whether `c`, lower-cased, is the lower-case ASCII letter `w`.
fn lower_is(c: char, w: char) -> (r: bool)
    requires
        0x61 <= (w as u32) <= 0x7a,
    ensures
        r == (ascii_lower(c) == w),
{
    let u = c as u32;
    if 0x41 <= u && u <= 0x5a {
        let r = u + 32 == (w as u32);
        proof {
            let l = ((c as u32) + 32) as char;
            assert(l as u32 == (c as u32) + 32);
            assert(r ==> l == w);
        }
        r
    } else {
        c == w
    }
}

/// Whether `b[from..]`, lower-cased, equals `word` (which is lower case).
fn lower_equals(b: &[char], from: usize, word: &[char]) -> (r: bool)
    requires
        from <= b@.len(),
        forall|k: int| 0 <= k < word@.len() ==> 0x61 <= (#[trigger] word@[k] as u32) <= 0x7a,
    ensures
        r == (lower_seq(b@.skip(from as int)) == word@),
{
    let ghost t = b@.skip(from as int);
    if b.len() - from != word.len() {
        assert(lower_seq(t).len() != word@.len());
        return false;
    }
    let blen = b.len();
    let mut i: usize = 0;
    while i < word.len()
        invariant
            blen == b@.len(),
            t == b@.skip(from as int),
            from <= b@.len(),
            b@.len() - from == word@.len(),
            0 <= i <= word@.len(),
            forall|k: int| 0 <= k < i ==> ascii_lower(t[k]) == word@[k],
            forall|k: int| 0 <= k < word@.len() ==> 0x61 <= (#[trigger] word@[k] as u32) <= 0x7a,
        decreases word.len() - i,
    {
        assert(from + i < blen);
        if !lower_is(b[from + i], word[i]) {
            assert(lower_seq(t)[i as int] != word@[i as int]);
            return false;
        }
        i = i + 1;
    }
    assert(lower_seq(t) =~= word@);
    true
}

/// Whether `s` is the text of a number that the standard library's float
/// parsing accepts.
pub fn float_literal(s: &[char]) -> (r: bool)
    ensures
        r == is_float_literal(s@),
{
    let start: usize = if s.len() > 0 && (s[0] == '+' || s[0] == '-') {
        1
    } else {
        0
    };
    let ghost b = if s@.len() > 0 && is_sign(s@[0]) {
        s@.drop_first()
    } else {
        s@
    };
    assert(b =~= s@.skip(start as int));
    let inf = ['i', 'n', 'f'];
    let infinity = ['i', 'n', 'f', 'i', 'n', 'i', 't', 'y'];
    let nan = ['n', 'a', 'n'];
    assert(inf@ =~= seq!['i', 'n', 'f']);
    assert(infinity@ =~= seq!['i', 'n', 'f', 'i', 'n', 'i', 't', 'y']);
    assert(nan@ =~= seq!['n', 'a', 'n']);
    if lower_equals(s, start, &inf) || lower_equals(s, start, &infinity) || lower_equals(
        s,
        start,
        &nan,
    ) {
        return true;
    }
    assert(!float_special(b));
    // From here on positions are taken in `b`, shifted by `start`.
    let rest = vstd::slice::slice_subrange(s, start, s.len());
    assert(rest@ =~= b);
    let i1 = digits_end_from(rest, 0);
    let dot = i1 < rest.len() && rest[i1] == '.';
    let i2 = if dot {
        digits_end_from(rest, i1 + 1)
    } else {
        i1
    };
    let n_digits = if dot {
        i1 + (i2 - i1 - 1)
    } else {
        i1
    };
    if n_digits == 0 {
        return false;
    }
    if i2 == rest.len() {
        return true;
    }
    if !lower_is(rest[i2], 'e') {
        return false;
    }
    let k = i2 + 1;
    let k2 = if k < rest.len() && (rest[k] == '+' || rest[k] == '-') {
        k + 1
    } else {
        k
    };
    let k3 = digits_end_from(rest, k2);
    k2 < k3 && k3 == rest.len()
}

/// A line break after text that ends in a character other than white space
/// does not change what trimming gives.
pub proof fn lemma_trim_line_break(s: Seq<char>)
    requires
        s.len() > 0,
        !is_white_space(s[s.len() - 1]),
    ensures
        trim(s.push('\n')) == trim(s),
{
    let t = s.push('\n');
    lemma_skip_ws_bounds(s, 0);
    let a = skip_ws(s, 0);
    assert(a < s.len());
    lemma_skip_ws_at(t, 0, a);
    lemma_back_ws_bounds(s, s.len() as int, a);
    lemma_back_ws_at(s, s.len() as int, a, s.len() as int);
    lemma_back_ws_at(t, t.len() as int, a, s.len() as int);
    assert(t.subrange(a, s.len() as int) =~= s.subrange(a, s.len() as int));
}

} // verus!
