//! Text helpers: white space, trimming, and the normalized keys under which
//! names are matched.
//!
//! Case conversion is done by the `change-case` crate. Its results are not
//! described here character by character; each conversion has a name
//! (`lower_case_of`, `title_case_of`, `sentence_case_of`) that stands for
//! what the crate returns on a given input.

use vstd::prelude::*;

verus! {

/// `String::push` appends one character at the end of the string.
pub assume_specification[ String::push ](s: &mut String, ch: char)
    ensures
        final(s)@ == old(s)@.push(ch),
;

/// What `change_case::lower_case` returns on `s`.
pub uninterp spec fn lower_case_of(s: Seq<char>) -> Seq<char>;

/// What `change_case::title_case` returns on `s`.
pub uninterp spec fn title_case_of(s: Seq<char>) -> Seq<char>;

/// What `change_case::sentence_case` returns on `s`.
pub uninterp spec fn sentence_case_of(s: Seq<char>) -> Seq<char>;

/// Calls `change_case::lower_case`, which is `str::to_lowercase`: it
/// accepts every string and depends on nothing but its argument. The
/// contract only gives the result its name.
#[verifier::external_body]
pub(crate) fn lower_case(s: &str) -> (out: String)
    ensures
        out@ == lower_case_of(s@),
{
    change_case::lower_case(s)
}

/// The budget of the matcher that title case uses: the number of positions
/// of a word at which it may fail.
pub const TITLE_CASE_LIMIT: usize = 1_000_000;

/// Calls `change_case::title_case`. The crate cuts the input into words at
/// white space, colons, hyphens and dashes, and looks in each word for the
/// first position that `is_mark` describes. Its matcher tries the positions
/// of the word one after the other, the end of the word last, and gives up
/// when a position fails after `TITLE_CASE_LIMIT` others have failed; the
/// crate unwraps that. `title_case_takes` leaves out the inputs on which
/// this happens, and no others. The result depends on the argument alone;
/// the contract only gives it its name.
#[verifier::external_body]
pub(crate) fn title_case(s: &str) -> (out: String)
    requires
        title_case_takes(s@),
    ensures
        out@ == title_case_of(s@),
{
    change_case::title_case(s)
}

/// U+017F, the long s: the one character that sentence case keeps, leaves
/// as it is in lower case, and that is wider than one byte.
pub open spec fn long_s() -> char {
    '\u{17f}'
}

/// Calls `change_case::sentence_case`. The crate drops every character but
/// those of `is_kept`, lower-cases what is left, and upper-cases the first
/// word by cutting it after its first byte. That fails when the word starts
/// with a wider character, and U+017F is the only kept character that is
/// wider once in lower case. So inputs whose first kept character is U+017F
/// are left out. The result depends on the argument alone; the contract only
/// gives it its name.
#[verifier::external_body]
pub(crate) fn sentence_case(s: &str) -> (out: String)
    requires
        sentence_case_takes(s@),
    ensures
        out@ == sentence_case_of(s@),
{
    change_case::sentence_case(s)
}

/// White space: the characters with the Unicode property `White_Space`.
pub open spec fn is_space(c: char) -> bool {
    let n: u32 = c as u32;
    ||| 0x09 <= n <= 0x0d
    ||| n == 0x20
    ||| n == 0x85
    ||| n == 0xa0
    ||| n == 0x1680
    ||| 0x2000 <= n <= 0x200a
    ||| n == 0x2028
    ||| n == 0x2029
    ||| n == 0x202f
    ||| n == 0x205f
    ||| n == 0x3000
}

/// Tells whether `c` is white space.
pub fn is_white_space(c: char) -> (b: bool)
    ensures
        b == is_space(c),
{
    let n: u32 = c as u32;
    (0x09 <= n && n <= 0x0d) || n == 0x20 || n == 0x85 || n == 0xa0 || n == 0x1680 || (0x2000 <= n
        && n <= 0x200a) || n == 0x2028 || n == 0x2029 || n == 0x202f || n == 0x205f || n == 0x3000
}

/// A character at which title case cuts the input into words: white
/// space, the colon, the hyphen, the en dash and the em dash.
pub open spec fn is_break(c: char) -> bool {
    is_space(c) || c == ':' || c == '-' || c == '\u{2013}' || c == '\u{2014}'
}

/// An ASCII capital.
pub open spec fn is_capital(c: char) -> bool {
    0x41 <= c as u32 <= 0x5a
}

/// The position `i` marks its word as cased by hand: within the word it is
/// followed by an ASCII capital, or by a full stop and one more character.
pub open spec fn is_mark(s: Seq<char>, i: int) -> bool {
    i + 1 < s.len() && (is_capital(s[i + 1]) || (s[i + 1] == '.' && i + 2 < s.len() && !is_break(
        s[i + 2],
    )))
}

/// How many positions the matcher has failed at in the word that the first
/// `n` characters of `s` end in: all of them, as long as none is a mark.
/// Once a mark is found the matcher is done with the word: `None`.
pub open spec fn failed(s: Seq<char>, n: nat) -> Option<nat>
    decreases n,
{
    if n == 0 || is_break(s[n - 1]) {
        Some(0)
    } else {
        match failed(s, (n - 1) as nat) {
            Some(k) => if is_mark(s, n - 1) {
                None
            } else {
                Some(k + 1)
            },
            None => None,
        }
    }
}

/// After the first `n` characters the matcher is within its budget: it has
/// not failed more often than `TITLE_CASE_LIMIT`, and where it has failed
/// just as often, the word goes on, so that the next position may be a mark.
pub open spec fn within_budget(s: Seq<char>, n: int) -> bool {
    failed(s, n as nat) matches Some(k) ==> k <= TITLE_CASE_LIMIT && (k == TITLE_CASE_LIMIT ==> n
        < s.len() && !is_break(s[n]))
}

/// `s` can be put into title case: the matcher stays within its budget in
/// every word.
pub open spec fn title_case_takes(s: Seq<char>) -> bool {
    forall|n: int| 0 <= n <= s.len() ==> within_budget(s, n)
}

/// A character that sentence case keeps: an ASCII letter or digit, U+017F
/// or U+212A. Every other character parts words and is dropped.
pub open spec fn is_kept(c: char) -> bool {
    let n: u32 = c as u32;
    ||| 0x30 <= n <= 0x39
    ||| 0x41 <= n <= 0x5a
    ||| 0x61 <= n <= 0x7a
    ||| n == 0x17f
    ||| n == 0x212a
}

/// The first character of `s` that sentence case keeps.
pub open spec fn first_kept(s: Seq<char>) -> Option<char>
    decreases s.len(),
{
    if s.len() == 0 {
        None
    } else if is_kept(s[0]) {
        Some(s[0])
    } else {
        first_kept(s.drop_first())
    }
}

/// `s` can be put into sentence case: its first kept character is not
/// U+017F.
pub open spec fn sentence_case_takes(s: Seq<char>) -> bool {
    first_kept(s) != Some(long_s())
}

/// `s` without its leading white space.
pub open spec fn trim_start(s: Seq<char>) -> Seq<char>
    decreases s.len(),
{
    if s.len() > 0 && is_space(s[0]) {
        trim_start(s.drop_first())
    } else {
        s
    }
}

/// `s` without its trailing white space.
pub open spec fn trim_end(s: Seq<char>) -> Seq<char>
    decreases s.len(),
{
    if s.len() > 0 && is_space(s.last()) {
        trim_end(s.drop_last())
    } else {
        s
    }
}

/// `s` without leading and trailing white space.
pub open spec fn trimmed(s: Seq<char>) -> Seq<char> {
    trim_end(trim_start(s))
}

/// `s` with leading and trailing white space removed and every inner run of
/// white space replaced by one U+0020.
pub open spec fn squeeze(s: Seq<char>) -> Seq<char>
    decreases s.len(),
{
    if s.len() == 0 {
        Seq::empty()
    } else {
        let head = squeeze(s.drop_last());
        let c = s.last();
        if is_space(c) {
            head
        } else if s.len() >= 2 && is_space(s[s.len() - 2]) && head.len() > 0 {
            head.push(' ').push(c)
        } else {
            head.push(c)
        }
    }
}

/// The key under which a name is matched: lower case, white space squeezed.
/// Two names denote the same thing exactly when their keys are equal.
pub open spec fn key_of(name: Seq<char>) -> Seq<char> {
    squeeze(lower_case_of(name))
}

/// The characters of `s`, in order.
pub fn chars_of(s: &str) -> (out: Vec<char>)
    ensures
        out@ == s@,
{
    let mut out: Vec<char> = Vec::new();
    for c in it: s.chars()
        invariant
            out@ == it.seq().take(it.index() as int),
            it.seq() == s@,
    {
        out.push(c);
    }
    out
}

/// The string made of `chars[from..to]`.
pub fn string_of(chars: &Vec<char>, from: usize, to: usize) -> (out: String)
    requires
        from <= to <= chars.len(),
    ensures
        out@ == chars@.subrange(from as int, to as int),
{
    let mut out = String::new();
    let mut i: usize = from;
    while i < to
        invariant
            from <= i <= to <= chars.len(),
            out@ == chars@.subrange(from as int, i as int),
        decreases to - i,
    {
        out.push(chars[i]);
        i = i + 1;
    }
    out
}

/// Removes leading and trailing white space.
pub fn trim(s: &str) -> (out: String)
    ensures
        out@ == trimmed(s@),
{
    let chars = chars_of(s);
    let mut start: usize = 0;
    assert(chars@.skip(0) =~= chars@);
    while start < chars.len() && is_white_space(chars[start])
        invariant
            start <= chars.len(),
            trim_start(chars@.skip(start as int)) == trim_start(chars@),
        decreases chars.len() - start,
    {
        assert(chars@.skip(start as int).drop_first() =~= chars@.skip(start as int + 1));
        start = start + 1;
    }
    let ghost rest = chars@.skip(start as int);
    let mut end: usize = chars.len();
    while end > start && is_white_space(chars[end - 1])
        invariant
            start <= end <= chars.len(),
            trim_end(chars@.subrange(start as int, end as int)) == trim_end(rest),
        decreases end - start,
    {
        assert(chars@.subrange(start as int, end as int).drop_last() =~= chars@.subrange(
            start as int,
            end as int - 1,
        ));
        end = end - 1;
    }
    string_of(&chars, start, end)
}

/// Squeezes white space: see `squeeze`.
pub fn squeeze_spaces(s: &str) -> (out: String)
    ensures
        out@ == squeeze(s@),
{
    let chars = chars_of(s);
    let mut out = String::new();
    let mut empty: bool = true;
    let mut i: usize = 0;
    while i < chars.len()
        invariant
            i <= chars.len(),
            out@ == squeeze(chars@.take(i as int)),
            empty == (out@.len() == 0),
        decreases chars.len() - i,
    {
        let c = chars[i];
        proof {
            let next = chars@.take(i as int + 1);
            assert(next.drop_last() =~= chars@.take(i as int));
        }
        if !is_white_space(c) {
            if i >= 1 && is_white_space(chars[i - 1]) && !empty {
                out.push(' ');
            }
            out.push(c);
            empty = false;
        }
        i = i + 1;
    }
    assert(chars@.take(chars.len() as int) =~= chars@);
    out
}

/// The key of `name`: see `key_of`.
pub fn normalize(name: &str) -> (out: String)
    ensures
        out@ == key_of(name@),
{
    let lowered = lower_case(name);
    squeeze_spaces(lowered.as_str())
}

/// Tells whether `c` is kept by sentence case.
pub fn is_kept_char(c: char) -> (b: bool)
    ensures
        b == is_kept(c),
{
    let n: u32 = c as u32;
    (0x30 <= n && n <= 0x39) || (0x41 <= n && n <= 0x5a) || (0x61 <= n && n <= 0x7a) || n == 0x17f
        || n == 0x212a
}

/// Tells whether `c` parts words for title case.
pub fn is_break_char(c: char) -> (b: bool)
    ensures
        b == is_break(c),
{
    is_white_space(c) || c == ':' || c == '-' || c == '\u{2013}' || c == '\u{2014}'
}

/// Tells whether the position `i` marks its word as cased by hand.
fn marks(chars: &Vec<char>, i: usize) -> (b: bool)
    requires
        i < chars.len(),
    ensures
        b == is_mark(chars@, i as int),
{
    if i + 1 < chars.len() {
        let next: u32 = chars[i + 1] as u32;
        (0x41 <= next && next <= 0x5a) || (chars[i + 1] == '.' && i + 2 < chars.len()
            && !is_break_char(chars[i + 2]))
    } else {
        false
    }
}

/// The count as contracts see it.
pub open spec fn count_view(count: Option<usize>) -> Option<nat> {
    match count {
        Some(k) => Some(k as nat),
        None => None,
    }
}

/// Tells whether `s` can be put into title case.
pub fn takes_title_case(s: &str) -> (b: bool)
    ensures
        b == title_case_takes(s@),
{
    let chars = chars_of(s);
    let mut count: Option<usize> = Some(0);
    let mut i: usize = 0;
    while i < chars.len()
        invariant
            i <= chars.len(),
            chars@ == s@,
            count_view(count) == failed(chars@, i as nat),
            count matches Some(k) ==> k <= i,
            forall|n: int| 0 <= n < i ==> within_budget(chars@, n),
        decreases chars.len() - i,
    {
        let parts = is_break_char(chars[i]);
        match count {
            Some(k) => {
                if k > TITLE_CASE_LIMIT || (k == TITLE_CASE_LIMIT && parts) {
                    assert(!within_budget(chars@, i as int));
                    return false;
                }
            },
            None => {},
        }
        if parts {
            count = Some(0);
        } else {
            count = match count {
                Some(k) => if marks(&chars, i) {
                    None
                } else {
                    Some(k + 1)
                },
                None => None,
            };
        }
        i = i + 1;
    }
    let fits = match count {
        Some(k) => k < TITLE_CASE_LIMIT,
        None => true,
    };
    assert(fits == within_budget(chars@, chars.len() as int));
    fits
}

/// Tells whether `s` can be put into sentence case.
pub fn takes_sentence_case(s: &str) -> (b: bool)
    ensures
        b == sentence_case_takes(s@),
{
    let chars = chars_of(s);
    let mut i: usize = 0;
    assert(chars@.skip(0) =~= chars@);
    while i < chars.len()
        invariant
            i <= chars.len(),
            chars@ == s@,
            first_kept(chars@.skip(i as int)) == first_kept(chars@),
        decreases chars.len() - i,
    {
        if is_kept_char(chars[i]) {
            return chars[i] != '\u{17f}';
        }
        assert(chars@.skip(i as int).drop_first() =~= chars@.skip(i as int + 1));
        i = i + 1;
    }
    true
}

} // verus!
