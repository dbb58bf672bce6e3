//! Character-level string utilities shared by the parser and the prompt
//! composer: substring search, trimming, and decimal rendering.

use vstd::prelude::*;

verus! {

/// True when `needle` occurs in `hay` starting exactly at index `at`.
pub open spec fn occurs_at(hay: Seq<char>, needle: Seq<char>, at: int) -> bool {
    &&& 0 <= at
    &&& at + needle.len() <= hay.len()
    &&& hay.subrange(at, at + needle.len() as int) == needle
}

/// Index of the first occurrence of `needle` in `hay` at or after `from`,
/// or -1 when there is none.
pub open spec fn spec_find(hay: Seq<char>, needle: Seq<char>, from: int) -> int
    decreases hay.len() - from when 0 <= from via spec_find_decreases
{
    if from + needle.len() > hay.len() {
        -1
    } else if hay.subrange(from, from + needle.len() as int) == needle {
        from
    } else {
        spec_find(hay, needle, from + 1)
    }
}

#[via_fn]
proof fn spec_find_decreases(hay: Seq<char>, needle: Seq<char>, from: int) {
    if from + needle.len() <= hay.len() && needle.len() == 0 {
        assert(hay.subrange(from, from + needle.len() as int) =~= needle);
    }
}

/// An empty needle never reaches the mismatch branch of `spec_find`.
proof fn lemma_nonempty_on_mismatch(hay: Seq<char>, needle: Seq<char>, from: int)
    requires
        0 <= from,
        from + needle.len() <= hay.len(),
        hay.subrange(from, from + needle.len() as int) != needle,
    ensures
        needle.len() > 0,
{
    if needle.len() == 0 {
        assert(hay.subrange(from, from + needle.len() as int) =~= needle);
    }
}

/// `needle` occurs somewhere in `hay`.
pub open spec fn spec_contains(hay: Seq<char>, needle: Seq<char>) -> bool {
    spec_find(hay, needle, 0) != -1
}

/// A found index is a real occurrence, at or after the scan start, and
/// nothing before it (from the scan start on) is an occurrence.
pub proof fn lemma_find_found(hay: Seq<char>, needle: Seq<char>, from: int)
    requires
        0 <= from,
        spec_find(hay, needle, from) != -1,
    ensures
        from <= spec_find(hay, needle, from),
        occurs_at(hay, needle, spec_find(hay, needle, from)),
        forall|k: int| from <= k < spec_find(hay, needle, from) ==> !occurs_at(hay, needle, k),
    decreases hay.len() - from,
{
    if from + needle.len() > hay.len() {
    } else if hay.subrange(from, from + needle.len() as int) == needle {
    } else {
        lemma_nonempty_on_mismatch(hay, needle, from);
        lemma_find_found(hay, needle, from + 1);
    }
}

/// When the search fails there is no occurrence at or after the scan start.
pub proof fn lemma_find_none(hay: Seq<char>, needle: Seq<char>, from: int)
    requires
        0 <= from,
        spec_find(hay, needle, from) == -1,
    ensures
        forall|k: int| from <= k ==> !occurs_at(hay, needle, k),
    decreases hay.len() - from,
{
    if from + needle.len() > hay.len() {
        assert forall|k: int| from <= k implies !occurs_at(hay, needle, k) by {
            if occurs_at(hay, needle, k) {
                assert(k + needle.len() <= hay.len());
            }
        }
    } else if hay.subrange(from, from + needle.len() as int) == needle {
    } else {
        lemma_nonempty_on_mismatch(hay, needle, from);
        lemma_find_none(hay, needle, from + 1);
    }
}

/// Any occurrence at all means the search succeeds.
pub proof fn lemma_occurs_contains(hay: Seq<char>, needle: Seq<char>, at: int)
    requires
        occurs_at(hay, needle, at),
    ensures
        spec_contains(hay, needle),
{
    if spec_find(hay, needle, 0) == -1 {
        lemma_find_none(hay, needle, 0);
    }
}

/// A string that contains `needle` contains every prefix of `needle`.
pub proof fn lemma_contains_prefix(hay: Seq<char>, needle: Seq<char>, prefix: Seq<char>)
    requires
        prefix.len() <= needle.len(),
        prefix == needle.subrange(0, prefix.len() as int),
        spec_contains(hay, needle),
    ensures
        spec_contains(hay, prefix),
{
    lemma_find_found(hay, needle, 0);
    let at = spec_find(hay, needle, 0);
    assert(hay.subrange(at, at + prefix.len() as int) =~= prefix) by {
        assert(hay.subrange(at, at + needle.len() as int) == needle);
        assert forall|k: int| 0 <= k < prefix.len() implies hay.subrange(
            at,
            at + prefix.len() as int,
        )[k] == prefix[k] by {
            assert(hay.subrange(at, at + needle.len() as int)[k] == hay[at + k]);
            assert(needle.subrange(0, prefix.len() as int)[k] == needle[k]);
        }
    }
    lemma_occurs_contains(hay, prefix, at);
}

/// An occurrence at the scan start makes the search return the scan start.
pub proof fn lemma_find_at_start(hay: Seq<char>, needle: Seq<char>, from: int)
    requires
        0 <= from,
        occurs_at(hay, needle, from),
    ensures
        spec_find(hay, needle, from) == from,
{
}

/// A known first occurrence pins the search result down.
pub proof fn lemma_find_exact(hay: Seq<char>, needle: Seq<char>, from: int, at: int)
    requires
        0 <= from <= at,
        occurs_at(hay, needle, at),
        forall|k: int| from <= k < at ==> !occurs_at(hay, needle, k),
    ensures
        spec_find(hay, needle, from) == at,
    decreases at - from,
{
    if from == at {
    } else {
        assert(!occurs_at(hay, needle, from));
        if from + needle.len() <= hay.len() {
            assert(hay.subrange(from, from + needle.len() as int) != needle);
        }
        lemma_find_exact(hay, needle, from + 1, at);
    }
}

/// Compares `needle` against the slice of `hay` that starts at char index `at`.
fn match_at(hay: &str, needle: &str, at: usize) -> (r: bool)
    requires
        at + needle@.len() <= hay@.len(),
        hay@.len() <= usize::MAX,
    ensures
        r == occurs_at(hay@, needle@, at as int),
{
    let needle_len = needle.unicode_len();
    let mut j: usize = 0;
    while j < needle_len
        invariant
            0 <= j <= needle_len,
            needle_len == needle@.len(),
            at + needle@.len() <= hay@.len(),
            hay@.len() <= usize::MAX,
            forall|k: int| 0 <= k < j ==> hay@[at + k] == needle@[k],
        decreases needle_len - j,
    {
        if hay.get_char(at + j) != needle.get_char(j) {
            assert(hay@.subrange(at as int, at + needle@.len() as int) != needle@) by {
                assert(hay@.subrange(at as int, at + needle@.len() as int)[j as int]
                    == hay@[at + j]);
            }
            return false;
        }
        j += 1;
    }
    assert(hay@.subrange(at as int, at + needle@.len() as int) =~= needle@);
    true
}

/// Finds the first occurrence of `needle` in `hay` at or after char index
/// `from`, reported as a char index.
pub fn find_from(hay: &str, needle: &str, from: usize) -> (r: Option<usize>)
    requires
        from <= hay@.len(),
    ensures
        match r {
            Some(i) => from <= i && spec_find(hay@, needle@, from as int) == i,
            None => spec_find(hay@, needle@, from as int) == -1,
        },
{
    let hay_len = hay.unicode_len();
    let needle_len = needle.unicode_len();
    let mut i: usize = from;
    loop
        invariant
            from <= i <= hay_len,
            hay_len == hay@.len(),
            needle_len == needle@.len(),
            spec_find(hay@, needle@, from as int) == spec_find(hay@, needle@, i as int),
        decreases hay_len - i,
    {
        if needle_len > hay_len - i {
            return None;
        }
        if match_at(hay, needle, i) {
            return Some(i);
        }
        proof {
            lemma_nonempty_on_mismatch(hay@, needle@, i as int);
        }
        i += 1;
    }
}

/// True when `needle` occurs anywhere in `hay`.
pub fn contains_str(hay: &str, needle: &str) -> (r: bool)
    ensures
        r == spec_contains(hay@, needle@),
{
    match find_from(hay, needle, 0) {
        Some(_) => true,
        None => false,
    }
}

/// The characters with the Unicode `White_Space` property, the set that
/// `str::trim` removes.
pub open spec fn is_wspace(c: char) -> bool {
    ||| c == ' '
    ||| c == '\t'
    ||| c == '\n'
    ||| c == '\u{b}'
    ||| c == '\u{c}'
    ||| c == '\r'
    ||| c == '\u{85}'
    ||| c == '\u{a0}'
    ||| c == '\u{1680}'
    ||| ('\u{2000}' <= c && c <= '\u{200a}')
    ||| c == '\u{2028}'
    ||| c == '\u{2029}'
    ||| c == '\u{202f}'
    ||| c == '\u{205f}'
    ||| c == '\u{3000}'
}

/// Runtime test for `is_wspace`.
pub fn is_whitespace_char(c: char) -> (r: bool)
    ensures
        r == is_wspace(c),
{
    c == ' ' || c == '\t' || c == '\n' || c == '\u{b}' || c == '\u{c}' || c == '\r'
        || c == '\u{85}' || c == '\u{a0}' || c == '\u{1680}'
        || ('\u{2000}' <= c && c <= '\u{200a}') || c == '\u{2028}' || c == '\u{2029}'
        || c == '\u{202f}' || c == '\u{205f}' || c == '\u{3000}'
}

/// `s` with leading and trailing whitespace removed.
pub open spec fn spec_trim(s: Seq<char>) -> Seq<char>
    decreases s.len(),
{
    if s.len() == 0 {
        s
    } else if is_wspace(s[0]) {
        spec_trim(s.subrange(1, s.len() as int))
    } else if is_wspace(s[s.len() - 1]) {
        spec_trim(s.subrange(0, s.len() - 1))
    } else {
        s
    }
}

/// Bounds that keep exactly the whitespace margins outside pin `spec_trim`
/// down to a subrange.
proof fn lemma_trim_range(s: Seq<char>, lo: int, hi: int)
    requires
        0 <= lo <= hi <= s.len(),
        forall|k: int| 0 <= k < lo ==> is_wspace(s[k]),
        forall|k: int| hi <= k < s.len() ==> is_wspace(s[k]),
        lo == hi || (!is_wspace(s[lo]) && !is_wspace(s[hi - 1])),
    ensures
        spec_trim(s) == s.subrange(lo, hi),
    decreases s.len(),
{
    if s.len() == 0 {
        assert(spec_trim(s) =~= s.subrange(lo, hi));
    } else if is_wspace(s[0]) {
        let t = s.subrange(1, s.len() as int);
        if lo == hi {
            lemma_trim_range(t, 0, 0);
            assert(t.subrange(0, 0) =~= s.subrange(lo, hi));
        } else {
            assert(lo >= 1) by {
                if lo == 0 {
                    assert(!is_wspace(s[lo]));
                }
            }
            lemma_trim_range(t, lo - 1, hi - 1);
            assert(t.subrange(lo - 1, hi - 1) =~= s.subrange(lo, hi));
        }
    } else if is_wspace(s[s.len() - 1]) {
        let t = s.subrange(0, s.len() - 1);
        assert(lo == 0) by {
            if lo > 0 {
                assert(is_wspace(s[0]));
            }
        }
        assert(lo < hi) by {
            if lo == hi {
                assert(is_wspace(s[0]));
            }
        }
        assert(hi < s.len()) by {
            if hi == s.len() {
                assert(!is_wspace(s[hi - 1]));
            }
        }
        lemma_trim_range(t, lo, hi);
        assert(t.subrange(lo, hi) =~= s.subrange(lo, hi));
    } else {
        assert(lo == 0);
        assert(hi == s.len());
        assert(s.subrange(0, s.len() as int) =~= s);
    }
}

/// Copies the char range `[lo, hi)` of `s` with its whitespace margins
/// removed, as `str::trim` would.
pub fn trimmed_range(s: &str, lo: usize, hi: usize) -> (r: String)
    requires
        lo <= hi <= s@.len(),
    ensures
        r@ == spec_trim(s@.subrange(lo as int, hi as int)),
{
    let ghost sub = s@.subrange(lo as int, hi as int);
    let mut a: usize = lo;
    let mut b: usize = hi;
    let mut found_start = false;
    while a < b && !found_start
        invariant
            lo <= a <= b <= hi <= s@.len(),
            b == hi,
            forall|k: int| lo <= k < a ==> is_wspace(s@[k]),
            found_start ==> a < b && !is_wspace(s@[a as int]),
        decreases b - a + (if found_start { 0int } else { 1 }),
    {
        if is_whitespace_char(s.get_char(a)) {
            a += 1;
        } else {
            found_start = true;
        }
    }
    let mut found_end = false;
    while b > a && !found_end
        invariant
            lo <= a <= b <= hi <= s@.len(),
            forall|k: int| lo <= k < a ==> is_wspace(s@[k]),
            forall|k: int| b <= k < hi ==> is_wspace(s@[k]),
            a == b || found_start,
            found_start ==> !is_wspace(s@[a as int]),
            found_end ==> b > a && !is_wspace(s@[b - 1]),
        decreases b - a + (if found_end { 0int } else { 1 }),
    {
        if is_whitespace_char(s.get_char(b - 1)) {
            b -= 1;
        } else {
            found_end = true;
        }
    }
    proof {
        assert forall|k: int| 0 <= k < a - lo implies is_wspace(sub[k]) by {
            assert(sub[k] == s@[lo + k]);
        }
        assert forall|k: int| b - lo <= k < sub.len() implies is_wspace(sub[k]) by {
            assert(sub[k] == s@[lo + k]);
        }
        if a != b {
            assert(sub[a - lo] == s@[a as int]);
            assert(sub[b - lo - 1] == s@[b - 1]);
        }
        lemma_trim_range(sub, a - lo, b - lo);
    }
    let piece = s.substring_char(a, b);
    assert(piece@ =~= sub.subrange(a - lo, b - lo));
    piece.to_owned()
}

/// Relies on `String::push`: appends one char at the end of the string.
#[verifier::external_body]
pub fn push_char(s: &mut String, c: char)
    ensures
        final(s)@ == old(s)@ + seq![c],
{
    s.push(c);
}

/// The decimal digit character for `d`.
pub open spec fn digit_char(d: int) -> char {
    if d == 0 { '0' }
    else if d == 1 { '1' }
    else if d == 2 { '2' }
    else if d == 3 { '3' }
    else if d == 4 { '4' }
    else if d == 5 { '5' }
    else if d == 6 { '6' }
    else if d == 7 { '7' }
    else if d == 8 { '8' }
    else { '9' }
}

/// The decimal rendering of `n`, most significant digit first.
pub open spec fn spec_u64_str(n: int) -> Seq<char>
    decreases n,
{
    if n < 10 {
        seq![digit_char(n)]
    } else {
        spec_u64_str(n / 10) + seq![digit_char(n % 10)]
    }
}

fn digit_of(d: u64) -> (c: char)
    requires
        d < 10,
    ensures
        c == digit_char(d as int),
{
    if d == 0 { '0' }
    else if d == 1 { '1' }
    else if d == 2 { '2' }
    else if d == 3 { '3' }
    else if d == 4 { '4' }
    else if d == 5 { '5' }
    else if d == 6 { '6' }
    else if d == 7 { '7' }
    else if d == 8 { '8' }
    else { '9' }
}

/// Renders `n` in decimal.
pub fn u64_to_string(n: u64) -> (r: String)
    ensures
        r@ == spec_u64_str(n as int),
    decreases n,
{
    if n < 10 {
        let mut s = String::new();
        push_char(&mut s, digit_of(n));
        assert(s@ =~= spec_u64_str(n as int));
        s
    } else {
        let mut s = u64_to_string(n / 10);
        push_char(&mut s, digit_of(n % 10));
        s
    }
}

/// The numeric value of a decimal digit character; 10 for anything else.
pub open spec fn digit_value(c: char) -> int {
    if c == '0' { 0 }
    else if c == '1' { 1 }
    else if c == '2' { 2 }
    else if c == '3' { 3 }
    else if c == '4' { 4 }
    else if c == '5' { 5 }
    else if c == '6' { 6 }
    else if c == '7' { 7 }
    else if c == '8' { 8 }
    else if c == '9' { 9 }
    else { 10 }
}

/// Every character is a decimal digit.
pub open spec fn all_digits(s: Seq<char>) -> bool {
    forall|i: int| 0 <= i < s.len() ==> digit_value(#[trigger] s[i]) < 10
}

/// The number a digit string denotes, most significant digit first.
pub open spec fn digits_value(s: Seq<char>) -> int
    decreases s.len(),
{
    if s.len() == 0 {
        0
    } else {
        digits_value(s.drop_last()) * 10 + digit_value(s.last())
    }
}

proof fn lemma_digits_value_nonneg(s: Seq<char>)
    ensures
        digits_value(s) >= 0,
    decreases s.len(),
{
    if s.len() > 0 {
        lemma_digits_value_nonneg(s.drop_last());
    }
}

/// A digit string is worth at least any of its prefixes.
proof fn lemma_digits_value_prefix(s: Seq<char>, i: int)
    requires
        0 <= i <= s.len(),
    ensures
        digits_value(s.take(i)) <= digits_value(s),
    decreases s.len() - i,
{
    if i < s.len() {
        lemma_digits_value_prefix(s.drop_last(), i);
        assert(s.drop_last().take(i) =~= s.take(i));
        lemma_digits_value_nonneg(s.drop_last());
    } else {
        assert(s.take(i) =~= s);
    }
}

fn char_digit(c: char) -> (r: u32)
    ensures
        r == digit_value(c),
{
    if c == '0' { 0 }
    else if c == '1' { 1 }
    else if c == '2' { 2 }
    else if c == '3' { 3 }
    else if c == '4' { 4 }
    else if c == '5' { 5 }
    else if c == '6' { 6 }
    else if c == '7' { 7 }
    else if c == '8' { 8 }
    else if c == '9' { 9 }
    else { 10 }
}

/// What `str::parse::<u16>` makes of a string: an optional leading `+`,
/// then one or more decimal digits whose value fits in sixteen bits.
pub open spec fn spec_parse_u16(s: Seq<char>) -> Option<u16> {
    let body = if s.len() > 0 && s[0] == '+' {
        s.subrange(1, s.len() as int)
    } else {
        s
    };
    if body.len() > 0 && all_digits(body) && digits_value(body) <= 65535 {
        Some(digits_value(body) as u16)
    } else {
        None
    }
}

/// Parses a decimal `u16`: an optional leading `+` and one or more
/// digits, rejecting anything else and values that do not fit.
pub fn parse_u16(s: &str) -> (r: Option<u16>)
    ensures
        r == spec_parse_u16(s@),
{
    let len = s.unicode_len();
    let start: usize = if len > 0 && s.get_char(0) == '+' {
        1
    } else {
        0
    };
    let ghost body = if s@.len() > 0 && s@[0] == '+' {
        s@.subrange(1, s@.len() as int)
    } else {
        s@
    };
    proof {
        assert(body =~= s@.subrange(start as int, len as int));
    }
    if start >= len {
        return None;
    }
    let mut value: u32 = 0;
    let mut i: usize = start;
    while i < len
        invariant
            start <= i <= len,
            len == s@.len(),
            (s@.len() > 0 && s@[0] == '+') <==> start == 1,
            start == 0 || start == 1,
            body == s@.subrange(start as int, len as int),
            body == (if s@.len() > 0 && s@[0] == '+' {
                s@.subrange(1, s@.len() as int)
            } else {
                s@
            }),
            value <= 65535,
            value == digits_value(body.take(i - start)),
            all_digits(body.take(i - start)),
        decreases len - i,
    {
        let ghost done = body.take(i - start);
        let c = s.get_char(i);
        proof {
            assert(body[i - start] == s@[i as int]);
        }
        let d = char_digit(c);
        if d >= 10 {
            assert(!all_digits(body));
            return None;
        }
        let next = value * 10 + d;
        proof {
            assert(body.take(i + 1 - start).drop_last() =~= done);
            assert(body.take(i + 1 - start).last() == body[i - start]);
        }
        if next > 65535 {
            proof {
                assert(digits_value(body.take(i + 1 - start)) == next);
                lemma_digits_value_prefix(body, i + 1 - start);
                assert(digits_value(body) > 65535);
            }
            return None;
        }
        value = next;
        i += 1;
    }
    proof {
        assert(body.take(len - start) =~= body);
    }
    Some(value as u16)
}

/// The first `max_len` chars of `s`, with a `...` marker when anything
/// was cut off.
pub open spec fn spec_truncate(s: Seq<char>, max_len: int) -> Seq<char> {
    if s.len() <= max_len {
        s
    } else {
        s.subrange(0, max_len) + "..."@
    }
}

/// Truncates `s` to at most `max_len` chars, appending `...` when cut,
/// never splitting a multi-byte character.
pub fn truncate(s: &str, max_len: usize) -> (r: String)
    ensures
        r@ == spec_truncate(s@, max_len as int),
{
    let len = s.unicode_len();
    if len <= max_len {
        s.to_owned()
    } else {
        let mut r = s.substring_char(0, max_len).to_owned();
        r.append("...");
        r
    }
}

/// `s` from position `pos` on, with every occurrence of `pat` replaced by
/// `rep`, scanning left to right without revisiting replacements.
pub open spec fn spec_replace_from(
    s: Seq<char>,
    pat: Seq<char>,
    rep: Seq<char>,
    pos: int,
) -> Seq<char>
    decreases s.len() - pos when 0 <= pos && pat.len() > 0 via spec_replace_from_decreases
{
    let f = spec_find(s, pat, pos);
    if f == -1 {
        s.subrange(pos, s.len() as int)
    } else {
        s.subrange(pos, f) + rep + spec_replace_from(s, pat, rep, f + pat.len())
    }
}

#[via_fn]
proof fn spec_replace_from_decreases(s: Seq<char>, pat: Seq<char>, rep: Seq<char>, pos: int) {
    let f = spec_find(s, pat, pos);
    if f != -1 {
        lemma_find_found(s, pat, pos);
    }
}

/// Replaces every occurrence of `pat` in `s` by `rep`.
pub fn replace_all(s: &str, pat: &str, rep: &str) -> (r: String)
    requires
        pat@.len() > 0,
    ensures
        r@ == spec_replace_from(s@, pat@, rep@, 0),
{
    let len = s.unicode_len();
    let pat_len = pat.unicode_len();
    let mut r = String::new();
    let mut pos: usize = 0;
    loop
        invariant
            0 <= pos <= len,
            len == s@.len(),
            pat_len == pat@.len(),
            pat@.len() > 0,
            spec_replace_from(s@, pat@, rep@, 0) =~= r@ + spec_replace_from(
                s@,
                pat@,
                rep@,
                pos as int,
            ),
        decreases len - pos,
    {
        let ghost gpos = pos as int;
        match find_from(s, pat, pos) {
            None => {
                let rest = s.substring_char(pos, len);
                r.append(rest);
                assert(spec_replace_from(s@, pat@, rep@, gpos) == s@.subrange(
                    gpos,
                    len as int,
                ));
                return r;
            },
            Some(f) => {
                proof {
                    lemma_find_found(s@, pat@, gpos);
                }
                let piece = s.substring_char(pos, f);
                r.append(piece);
                r.append(rep);
                pos = f + pat_len;
            },
        }
    }
}

/// The pieces joined by `sep`, with no leading or trailing separator.
pub open spec fn spec_join(xs: Seq<Seq<char>>, sep: Seq<char>) -> Seq<char>
    decreases xs.len(),
{
    if xs.len() == 0 {
        Seq::empty()
    } else if xs.len() == 1 {
        xs[0]
    } else {
        spec_join(xs.drop_last(), sep) + sep + xs.last()
    }
}

/// The views of a vector of strings.
pub open spec fn views_of(xs: Seq<String>) -> Seq<Seq<char>> {
    xs.map_values(|s: String| s@)
}

/// Joins the strings with the separator, no leading or trailing copy.
pub fn join_strings(xs: &Vec<String>, sep: &str) -> (r: String)
    ensures
        r@ == spec_join(views_of(xs@), sep@),
{
    let mut r = String::new();
    let mut i: usize = 0;
    while i < xs.len()
        invariant
            0 <= i <= xs@.len(),
            r@ == spec_join(views_of(xs@).subrange(0, i as int), sep@),
        decreases xs@.len() - i,
    {
        let ghost prefix = views_of(xs@).subrange(0, i as int);
        if i > 0 {
            r.append(sep);
        }
        r.append(xs[i].as_str());
        proof {
            let next = views_of(xs@).subrange(0, i + 1);
            assert(next.drop_last() =~= prefix);
            assert(next.last() == xs@[i as int]@);
            if i == 0 {
                assert(r@ =~= spec_join(next, sep@));
            } else {
                assert(r@ =~= spec_join(next, sep@));
            }
        }
        i += 1;
    }
    proof {
        assert(views_of(xs@).subrange(0, xs@.len() as int) =~= views_of(xs@));
    }
    r
}

} // verus!

