//! Character-level text operations: Unicode white space as `char::is_whitespace`
//! defines it, trimming, pattern stripping, splitting on white space, and
//! building strings.
use vstd::prelude::*;

verus! {

broadcast use vstd::string::group_string_axioms;

/// `char::is_whitespace`: the characters with the Unicode `White_Space` property.
pub open spec fn is_white_space(c: char) -> bool {
    let u = c as u32;
    ||| 9 <= u <= 13
    ||| u == 32
    ||| u == 0x85
    ||| u == 0xA0
    ||| u == 0x1680
    ||| 0x2000 <= u <= 0x200A
    ||| u == 0x2028
    ||| u == 0x2029
    ||| u == 0x202F
    ||| u == 0x205F
    ||| u == 0x3000
}

/// `s` with leading white space removed (`str::trim_start`).
pub open spec fn trim_start(s: Seq<char>) -> Seq<char>
    decreases s.len(),
{
    if s.len() > 0 && is_white_space(s[0]) {
        trim_start(s.drop_first())
    } else {
        s
    }
}

/// `s` with trailing white space removed (`str::trim_end`).
pub open spec fn trim_end(s: Seq<char>) -> Seq<char>
    decreases s.len(),
{
    if s.len() > 0 && is_white_space(s.last()) {
        trim_end(s.drop_last())
    } else {
        s
    }
}

/// `s` with white space removed at both ends (`str::trim`).
pub open spec fn trim(s: Seq<char>) -> Seq<char> {
    trim_end(trim_start(s))
}

/// `s` with every leading `c` removed (`str::trim_start_matches` with a `char`).
pub open spec fn trim_start_char(s: Seq<char>, c: char) -> Seq<char>
    decreases s.len(),
{
    if s.len() > 0 && s[0] == c {
        trim_start_char(s.drop_first(), c)
    } else {
        s
    }
}

/// `s` with every trailing `c` removed (`str::trim_end_matches` with a `char`).
pub open spec fn trim_end_char(s: Seq<char>, c: char) -> Seq<char>
    decreases s.len(),
{
    if s.len() > 0 && s.last() == c {
        trim_end_char(s.drop_last(), c)
    } else {
        s
    }
}

/// Whether `s` ends with `pat`.
pub open spec fn ends_with(s: Seq<char>, pat: Seq<char>) -> bool {
    pat.len() <= s.len() && s.subrange(s.len() - pat.len(), s.len() as int) == pat
}

/// Whether `s` starts with `pat`.
pub open spec fn starts_with(s: Seq<char>, pat: Seq<char>) -> bool {
    pat.len() <= s.len() && s.subrange(0, pat.len() as int) == pat
}

/// `s` with every trailing occurrence of the non-empty `pat` removed
/// (`str::trim_end_matches` with a `&str`).
pub open spec fn trim_end_seq(s: Seq<char>, pat: Seq<char>) -> Seq<char>
    decreases s.len(),
{
    if pat.len() > 0 && ends_with(s, pat) {
        trim_end_seq(s.subrange(0, s.len() - pat.len()), pat)
    } else {
        s
    }
}

/// The length of the run of non-white-space characters that starts `s`.
pub open spec fn word_len(s: Seq<char>) -> nat
    decreases s.len(),
{
    if s.len() == 0 || is_white_space(s[0]) {
        0
    } else {
        1 + word_len(s.drop_first())
    }
}

/// The words of `s`: its maximal runs of non-white-space characters, in order
/// (`str::split_whitespace`).
pub open spec fn words(s: Seq<char>) -> Seq<Seq<char>>
    decreases s.len(),
{
    let t = trim_start(s);
    if t.len() == 0 {
        seq![]
    } else {
        let n = word_len(t);
        if 0 < n <= t.len() && t.len() <= s.len() {
            seq![t.subrange(0, n as int)] + words(t.subrange(n as int, t.len() as int))
        } else {
            seq![]
        }
    }
}

/// The views of a sequence of strings.
pub open spec fn views(v: Seq<String>) -> Seq<Seq<char>> {
    v.map_values(|s: String| s@)
}

/// `String::push` appends one character.
pub assume_specification[ String::push ](string: &mut String, ch: char)
    ensures
        final(string)@ == old(string)@.push(ch),
;

/// Whether `c` is an ASCII character.
pub open spec fn is_ascii_char(c: char) -> bool {
    (c as u32) < 128
}

/// Whether every character of `s` is ASCII.
pub open spec fn all_ascii(s: Seq<char>) -> bool {
    forall|i: int| 0 <= i < s.len() ==> is_ascii_char(#[trigger] s[i])
}

/// `c` with `A`..=`Z` turned into `a`..=`z`.
pub open spec fn ascii_lower(c: char) -> char {
    if 65 <= (c as u32) <= 90 {
        ((c as u32) + 32) as char
    } else {
        c
    }
}

/// Whether `c` is an ASCII letter or digit.
pub open spec fn ascii_alnum(c: char) -> bool {
    let u = c as u32;
    (48 <= u <= 57) || (65 <= u <= 90) || (97 <= u <= 122)
}

/// What `str::to_lowercase` gives for a text (the Unicode `Lowercase` mapping,
/// which may change the number of characters).
pub uninterp spec fn lowercase(s: Seq<char>) -> Seq<char>;

/// The lower-case form of `s` as far as it is known: ASCII text has its
/// letters lowered one for one, any other text is `lowercase`.
pub open spec fn text_lowercase(s: Seq<char>) -> Seq<char> {
    if all_ascii(s) {
        s.map_values(|c: char| ascii_lower(c))
    } else {
        lowercase(s)
    }
}

/// `str::to_lowercase` returns the lower-case form of the text; its result is
/// a function of the text alone and is named `lowercase`. On ASCII text the
/// Unicode `Lowercase` mapping that its documentation refers to lowers `A`..=`Z`
/// one for one and keeps every other character.
pub assume_specification[ str::to_lowercase ](s: &str) -> (r: String)
    ensures
        r@ == lowercase(s@),
        all_ascii(s@) ==> r@ == s@.map_values(|c: char| ascii_lower(c)),
;

/// What `char::is_alphanumeric` says of a character (Unicode `Alphabetic` or `Numeric`).
pub uninterp spec fn alphanumeric(c: char) -> bool;

/// Whether `c` is alphanumeric as far as it is known: for ASCII the letters
/// and digits, otherwise `alphanumeric`.
pub open spec fn char_alphanumeric(c: char) -> bool {
    if is_ascii_char(c) {
        ascii_alnum(c)
    } else {
        alphanumeric(c)
    }
}

/// `char::is_alphanumeric` tells whether a character is a letter or a number in
/// Unicode's sense; its result is a function of the character alone and is
/// named `alphanumeric`. Among ASCII characters, the Unicode `Alphabetic` and
/// `Numeric` properties its documentation refers to hold of the letters and
/// digits only.
pub assume_specification[ char::is_alphanumeric ](c: char) -> (r: bool)
    ensures
        r == alphanumeric(c),
        is_ascii_char(c) ==> (r == ascii_alnum(c)),
;

/// What `String::from_utf8_lossy` makes of some bytes: their UTF-8 decoding, with
/// each invalid sequence replaced by U+FFFD.
pub uninterp spec fn utf8_lossy(b: Seq<u8>) -> Seq<char>;

/// `String::from_utf8_lossy` decodes bytes as UTF-8, replacing what is invalid;
/// the contract names its result `utf8_lossy` of the bytes and states nothing
/// more of it.
#[verifier::external_body]
pub(crate) fn from_utf8_lossy(b: &[u8]) -> (r: String)
    ensures
        r@ == utf8_lossy(b@),
{
    String::from_utf8_lossy(b).into_owned()
}

/// The lower-case form of `s` (`str::to_lowercase`).
pub fn lower_case(s: &str) -> (r: String)
    ensures
        r@ == lowercase(s@),
        r@ == text_lowercase(s@),
{
    let r = s.to_lowercase();
    proof {
        if all_ascii(s@) {
            assert(r@ =~= s@.map_values(|c: char| ascii_lower(c)));
        }
    }
    r
}

/// The first `n` characters of `s`, or all of them when it is shorter
/// (`s.chars().take(n).collect::<String>()`).
pub fn take_chars(s: &str, n: usize) -> (r: String)
    ensures
        r@ == s@.take(if n <= s@.len() { n as int } else { s@.len() as int }),
{
    let c = chars_of(s);
    let m = if n <= c.len() { n } else { c.len() };
    string_of(c.as_slice(), 0, m)
}

/// `char::is_whitespace`.
pub fn is_whitespace(c: char) -> (r: bool)
    ensures
        r == is_white_space(c),
{
    let u = c as u32;
    (9 <= u && u <= 13) || u == 32 || u == 0x85 || u == 0xA0 || u == 0x1680 || (0x2000 <= u
        && u <= 0x200A) || u == 0x2028 || u == 0x2029 || u == 0x202F || u == 0x205F || u == 0x3000
}

/// The characters of `s`, in order.
pub fn chars_of(s: &str) -> (r: Vec<char>)
    ensures
        r@ == s@,
{
    let mut r: Vec<char> = Vec::new();
    for c in it: s.chars()
        invariant
            r@ == it.seq().take(it.index() as int),
    {
        r.push(c);
    }
    r
}

/// A string holding the characters of `s[lo..hi]`.
pub fn string_of(s: &[char], lo: usize, hi: usize) -> (r: String)
    requires
        lo <= hi <= s@.len(),
    ensures
        r@ == s@.subrange(lo as int, hi as int),
{
    let mut r = String::new();
    let mut i = lo;
    while i < hi
        invariant
            lo <= i <= hi <= s@.len(),
            r@ == s@.subrange(lo as int, i as int),
        decreases hi - i,
    {
        r.push(s[i]);
        i = i + 1;
        assert(r@ =~= s@.subrange(lo as int, i as int));
    }
    r
}

/// `a` followed by `b`, as a new string.
pub fn concat(a: &str, b: &str) -> (r: String)
    ensures
        r@ == a@ + b@,
{
    let mut r = String::from_str(a);
    r.append(b);
    r
}

/// Whether `a[lo..hi]` equals `b`.
pub fn range_eq(a: &[char], lo: usize, hi: usize, b: &[char]) -> (r: bool)
    requires
        lo <= hi <= a@.len(),
    ensures
        r == (a@.subrange(lo as int, hi as int) == b@),
{
    if hi - lo != b.len() {
        return false;
    }
    let mut i: usize = 0;
    while i < b.len()
        invariant
            lo <= hi <= a@.len(),
            hi - lo == b@.len(),
            0 <= i <= b@.len(),
            forall|k: int| 0 <= k < i ==> a@[lo + k] == b@[k],
        decreases b@.len() - i,
    {
        if a[lo + i] != b[i] {
            assert(a@.subrange(lo as int, hi as int)[i as int] != b@[i as int]);
            return false;
        }
        i = i + 1;
    }
    assert(a@.subrange(lo as int, hi as int) =~= b@);
    true
}

/// Whether the characters of `a` equal the literal or string `b`.
pub fn eq_str(a: &[char], b: &str) -> (r: bool)
    ensures
        r == (a@ == b@),
{
    let bc = chars_of(b);
    let r = range_eq(a, 0, a.len(), bc.as_slice());
    assert(a@.subrange(0, a@.len() as int) =~= a@);
    r
}

/// The index at which `s[lo..hi]` starts once leading white space is removed.
pub fn trim_start_index(s: &[char], lo: usize, hi: usize) -> (i: usize)
    requires
        lo <= hi <= s@.len(),
    ensures
        lo <= i <= hi,
        s@.subrange(i as int, hi as int) == trim_start(s@.subrange(lo as int, hi as int)),
{
    let mut i = lo;
    while i < hi && is_whitespace(s[i])
        invariant
            lo <= i <= hi <= s@.len(),
            trim_start(s@.subrange(lo as int, hi as int)) == trim_start(
                s@.subrange(i as int, hi as int),
            ),
        decreases hi - i,
    {
        assert(s@.subrange(i as int, hi as int).drop_first() =~= s@.subrange(i + 1, hi as int));
        i = i + 1;
    }
    i
}

/// The index at which `s[lo..hi]` ends once trailing white space is removed.
pub fn trim_end_index(s: &[char], lo: usize, hi: usize) -> (j: usize)
    requires
        lo <= hi <= s@.len(),
    ensures
        lo <= j <= hi,
        s@.subrange(lo as int, j as int) == trim_end(s@.subrange(lo as int, hi as int)),
{
    let mut j = hi;
    while j > lo && is_whitespace(s[j - 1])
        invariant
            lo <= j <= hi <= s@.len(),
            trim_end(s@.subrange(lo as int, hi as int)) == trim_end(
                s@.subrange(lo as int, j as int),
            ),
        decreases j - lo,
    {
        assert(s@.subrange(lo as int, j as int).drop_last() =~= s@.subrange(lo as int, j - 1));
        j = j - 1;
    }
    j
}

/// The bounds of `s[lo..hi]` once white space is removed at both ends.
pub fn trim_range(s: &[char], lo: usize, hi: usize) -> (r: (usize, usize))
    requires
        lo <= hi <= s@.len(),
    ensures
        lo <= r.0 <= r.1 <= hi,
        s@.subrange(r.0 as int, r.1 as int) == trim(s@.subrange(lo as int, hi as int)),
{
    let i = trim_start_index(s, lo, hi);
    let j = trim_end_index(s, i, hi);
    (i, j)
}

/// The index at which `s[lo..hi]` starts once every leading `c` is removed.
pub fn trim_start_char_index(s: &[char], lo: usize, hi: usize, c: char) -> (i: usize)
    requires
        lo <= hi <= s@.len(),
    ensures
        lo <= i <= hi,
        s@.subrange(i as int, hi as int) == trim_start_char(s@.subrange(lo as int, hi as int), c),
{
    let mut i = lo;
    while i < hi && s[i] == c
        invariant
            lo <= i <= hi <= s@.len(),
            trim_start_char(s@.subrange(lo as int, hi as int), c) == trim_start_char(
                s@.subrange(i as int, hi as int),
                c,
            ),
        decreases hi - i,
    {
        assert(s@.subrange(i as int, hi as int).drop_first() =~= s@.subrange(i + 1, hi as int));
        i = i + 1;
    }
    i
}

/// The index at which `s[lo..hi]` ends once every trailing `c` is removed.
pub fn trim_end_char_index(s: &[char], lo: usize, hi: usize, c: char) -> (j: usize)
    requires
        lo <= hi <= s@.len(),
    ensures
        lo <= j <= hi,
        s@.subrange(lo as int, j as int) == trim_end_char(s@.subrange(lo as int, hi as int), c),
{
    let mut j = hi;
    while j > lo && s[j - 1] == c
        invariant
            lo <= j <= hi <= s@.len(),
            trim_end_char(s@.subrange(lo as int, hi as int), c) == trim_end_char(
                s@.subrange(lo as int, j as int),
                c,
            ),
        decreases j - lo,
    {
        assert(s@.subrange(lo as int, j as int).drop_last() =~= s@.subrange(lo as int, j - 1));
        j = j - 1;
    }
    j
}

/// The index at which `s[lo..hi]` ends once every trailing occurrence of the
/// non-empty `pat` is removed.
pub fn trim_end_seq_index(s: &[char], lo: usize, hi: usize, pat: &[char]) -> (j: usize)
    requires
        lo <= hi <= s@.len(),
        pat@.len() > 0,
    ensures
        lo <= j <= hi,
        s@.subrange(lo as int, j as int) == trim_end_seq(s@.subrange(lo as int, hi as int), pat@),
{
    let mut j = hi;
    loop
        invariant
            lo <= j <= hi <= s@.len(),
            pat@.len() > 0,
            trim_end_seq(s@.subrange(lo as int, hi as int), pat@) == trim_end_seq(
                s@.subrange(lo as int, j as int),
                pat@,
            ),
        decreases j - lo,
    {
        let ghost cur = s@.subrange(lo as int, j as int);
        if j - lo >= pat.len() && range_eq(s, j - pat.len(), j, pat) {
            assert(cur.subrange(cur.len() - pat@.len(), cur.len() as int) =~= s@.subrange(
                j - pat@.len(),
                j as int,
            ));
            assert(cur.subrange(0, cur.len() - pat@.len()) =~= s@.subrange(
                lo as int,
                j - pat@.len(),
            ));
            j = j - pat.len();
        } else {
            proof {
                if pat@.len() <= cur.len() {
                    assert(cur.subrange(cur.len() - pat@.len(), cur.len() as int) =~= s@.subrange(
                        j - pat@.len(),
                        j as int,
                    ));
                }
            }
            return j;
        }
    }
}


/// Whether every character of `s` is white space.
pub open spec fn all_white_space(s: Seq<char>) -> bool {
    forall|i: int| 0 <= i < s.len() ==> is_white_space(#[trigger] s[i])
}

/// White space before a text does not change what `trim_start` leaves.
pub proof fn lemma_trim_start_ws_prefix(a: Seq<char>, s: Seq<char>)
    requires
        all_white_space(a),
    ensures
        trim_start(a + s) == trim_start(s),
    decreases a.len(),
{
    if a.len() > 0 {
        assert((a + s)[0] == a[0]);
        assert((a + s).drop_first() =~= a.drop_first() + s);
        assert(all_white_space(a.drop_first())) by {
            assert forall|i: int| 0 <= i < a.drop_first().len() implies is_white_space(
                #[trigger] a.drop_first()[i],
            ) by {
                assert(a.drop_first()[i] == a[i + 1]);
            }
        }
        lemma_trim_start_ws_prefix(a.drop_first(), s);
    } else {
        assert(a + s =~= s);
    }
}

/// White space after a text does not change what `trim_end` leaves.
pub proof fn lemma_trim_end_ws_suffix(s: Seq<char>, b: Seq<char>)
    requires
        all_white_space(b),
    ensures
        trim_end(s + b) == trim_end(s),
    decreases b.len(),
{
    if b.len() > 0 {
        assert((s + b).last() == b.last());
        assert((s + b).drop_last() =~= s + b.drop_last());
        assert(all_white_space(b.drop_last())) by {
            assert forall|i: int| 0 <= i < b.drop_last().len() implies is_white_space(
                #[trigger] b.drop_last()[i],
            ) by {
                assert(b.drop_last()[i] == b[i]);
            }
        }
        lemma_trim_end_ws_suffix(s, b.drop_last());
    } else {
        assert(s + b =~= s);
    }
}

/// White space after a text does not change what `trim` leaves.
proof fn lemma_trim_append_ws(s: Seq<char>, b: Seq<char>)
    requires
        all_white_space(b),
    ensures
        trim_end(trim_start(s + b)) == trim_end(trim_start(s)),
    decreases s.len(),
{
    if s.len() == 0 {
        assert(s + b =~= Seq::<char>::empty() + b);
        lemma_trim_start_ws_prefix(b, Seq::<char>::empty());
        assert(b + Seq::<char>::empty() =~= b);
        assert(s =~= Seq::<char>::empty());
    } else if is_white_space(s[0]) {
        assert((s + b)[0] == s[0]);
        assert((s + b).drop_first() =~= s.drop_first() + b);
        lemma_trim_append_ws(s.drop_first(), b);
    } else {
        assert((s + b)[0] == s[0]);
        lemma_trim_end_ws_suffix(s, b);
    }
}

/// White space around a text does not change what `trim` leaves.
pub proof fn lemma_trim_ws_around(a: Seq<char>, s: Seq<char>, b: Seq<char>)
    requires
        all_white_space(a),
        all_white_space(b),
    ensures
        trim(a + s + b) == trim(s),
{
    assert(a + s + b =~= a + (s + b));
    lemma_trim_start_ws_prefix(a, s + b);
    lemma_trim_append_ws(s, b);
}

/// Removing leading white space leaves a suffix that does not start with white space.
pub proof fn lemma_trim_start_shape(s: Seq<char>)
    ensures
        trim_start(s).len() <= s.len(),
        trim_start(s) == s.subrange(s.len() - trim_start(s).len(), s.len() as int),
        trim_start(s).len() > 0 ==> !is_white_space(trim_start(s)[0]),
    decreases s.len(),
{
    if s.len() > 0 && is_white_space(s[0]) {
        lemma_trim_start_shape(s.drop_first());
        assert(s.drop_first().subrange(
            s.drop_first().len() - trim_start(s).len(),
            s.drop_first().len() as int,
        ) =~= s.subrange(s.len() - trim_start(s).len(), s.len() as int));
    } else {
        assert(s.subrange(0, s.len() as int) =~= s);
    }
}

/// The first word is a non-empty prefix of any text that starts with a
/// non-white-space character, and holds no white space.
pub proof fn lemma_word_len(s: Seq<char>)
    ensures
        word_len(s) <= s.len(),
        s.len() > 0 && !is_white_space(s[0]) ==> word_len(s) > 0,
        forall|k: int| 0 <= k < word_len(s) ==> !is_white_space(#[trigger] s[k]),
        word_len(s) < s.len() ==> is_white_space(s[word_len(s) as int]),
    decreases s.len(),
{
    if s.len() > 0 && !is_white_space(s[0]) {
        lemma_word_len(s.drop_first());
        assert forall|k: int| 0 <= k < word_len(s) implies !is_white_space(#[trigger] s[k]) by {
            if k > 0 {
                assert(s[k] == s.drop_first()[k - 1]);
            }
        }
    }
}

/// Every character of every word of `s` is a character of `s` that is not
/// white space; in particular it meets any property that all of `s` meets.
pub proof fn lemma_words_chars(s: Seq<char>, p: spec_fn(char) -> bool)
    requires
        forall|k: int| 0 <= k < s.len() ==> p(#[trigger] s[k]),
    ensures
        forall|w: int, k: int|
            0 <= w < words(s).len() && 0 <= k < words(s)[w].len() ==> p(
                #[trigger] words(s)[w][k],
            ) && !is_white_space(words(s)[w][k]),
    decreases s.len(),
{
    let t = trim_start(s);
    lemma_trim_start_shape(s);
    if t.len() > 0 {
        let n = word_len(t);
        lemma_word_len(t);
        let rest = t.subrange(n as int, t.len() as int);
        assert forall|k: int| 0 <= k < rest.len() implies p(#[trigger] rest[k]) by {
            assert(rest[k] == s[s.len() - t.len() + n + k]);
        }
        lemma_words_chars(rest, p);
        assert forall|w: int, k: int|
            0 <= w < words(s).len() && 0 <= k < words(s)[w].len() implies p(
                #[trigger] words(s)[w][k],
            ) && !is_white_space(words(s)[w][k]) by {
            if w == 0 {
                assert(words(s)[0][k] == t[k]);
                assert(t[k] == s[s.len() - t.len() + k]);
            } else {
                assert(words(s)[w] == words(rest)[w - 1]);
            }
        }
    }
}

/// The white-space-separated words of `s`, in order (`str::split_whitespace`).
pub fn split_whitespace(s: &str) -> (r: Vec<String>)
    ensures
        views(r@) == words(s@),
{
    let c = chars_of(s);
    split_whitespace_chars(c.as_slice())
}

/// The white-space-separated words of `s`, in order.
pub fn split_whitespace_chars(s: &[char]) -> (r: Vec<String>)
    ensures
        views(r@) == words(s@),
{
    let n = s.len();
    let mut out: Vec<String> = Vec::new();
    let mut i: usize = 0;
    assert(s@.subrange(0, n as int) =~= s@);
    loop
        invariant
            n == s@.len(),
            i <= n,
            words(s@) == views(out@) + words(s@.subrange(i as int, n as int)),
        decreases n - i,
    {
        let start = trim_start_index(s, i, n);
        let ghost rest = s@.subrange(i as int, n as int);
        let ghost t = s@.subrange(start as int, n as int);
        proof {
            lemma_trim_start_shape(rest);
        }
        if start == n {
            assert(words(rest) =~= Seq::<Seq<char>>::empty());
            assert(views(out@) + words(rest) =~= views(out@));
            return out;
        }
        let mut end = start;
        while end < n && !is_whitespace(s[end])
            invariant
                start <= end <= n,
                n == s@.len(),
                t == s@.subrange(start as int, n as int),
                word_len(t) == (end - start) + word_len(s@.subrange(end as int, n as int)),
            decreases n - end,
        {
            assert(s@.subrange(end as int, n as int).drop_first() =~= s@.subrange(
                end + 1,
                n as int,
            ));
            end = end + 1;
        }
        proof {
            lemma_word_len(t);
        }
        let w = string_of(s, start, end);
        let ghost old_out = out@;
        out.push(w);
        proof {
            assert(t.subrange(0, (end - start) as int) =~= s@.subrange(start as int, end as int));
            assert(t.subrange((end - start) as int, t.len() as int) =~= s@.subrange(
                end as int,
                n as int,
            ));
            assert(words(rest) == seq![s@.subrange(start as int, end as int)] + words(
                s@.subrange(end as int, n as int),
            ));
            assert(views(out@) =~= views(old_out).push(s@.subrange(start as int, end as int)));
            assert(views(out@) + words(s@.subrange(end as int, n as int)) =~= views(old_out)
                + words(rest));
        }
        i = end;
    }
}

} // verus!
