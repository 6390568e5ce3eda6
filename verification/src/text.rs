//! Text helpers shared by every capability, stated over sequences of characters.
use vstd::prelude::*;
use vstd::string::{StrSliceExecFns, StringExecFns};
use vstd::utf8::{decode_utf8, encode_utf8, encode_utf8_decode_utf8, valid_utf8};

verus! {

/// `String::push`: the character is appended at the end.
pub assume_specification[ String::push ](s: &mut String, c: char)
    ensures
        final(s)@ == old(s)@.push(c),
;

/// Characters with the Unicode `White_Space` property.
pub open spec fn is_space(c: char) -> bool {
    ||| '\u{9}' <= c <= '\u{d}'
    ||| c == '\u{20}'
    ||| c == '\u{85}'
    ||| c == '\u{a0}'
    ||| c == '\u{1680}'
    ||| '\u{2000}' <= c <= '\u{200a}'
    ||| c == '\u{2028}'
    ||| c == '\u{2029}'
    ||| c == '\u{202f}'
    ||| c == '\u{205f}'
    ||| c == '\u{3000}'
}

/// Characters of the Unicode general category `Cc`.
pub open spec fn is_control(c: char) -> bool {
    c <= '\u{1f}' || '\u{7f}' <= c <= '\u{9f}'
}

pub fn char_is_space(c: char) -> (r: bool)
    ensures
        r == is_space(c),
{
    ('\u{9}' <= c && c <= '\u{d}') || c == '\u{20}' || c == '\u{85}' || c == '\u{a0}' || c
        == '\u{1680}' || ('\u{2000}' <= c && c <= '\u{200a}') || c == '\u{2028}' || c == '\u{2029}'
        || c == '\u{202f}' || c == '\u{205f}' || c == '\u{3000}'
}

pub fn char_is_control(c: char) -> (r: bool)
    ensures
        r == is_control(c),
{
    c <= '\u{1f}' || ('\u{7f}' <= c && c <= '\u{9f}')
}

/// The characters of a string, in order.
pub fn to_chars(s: &str) -> (r: Vec<char>)
    ensures
        r@ == s@,
{
    let mut out: Vec<char> = Vec::new();
    for c in it: s.chars()
        invariant
            it.seq() == s@,
            out@ == s@.take(it.index@),
    {
        out.push(c);
    }
    out
}

// ---------------------------------------------------------------------------
// Joining
// ---------------------------------------------------------------------------
/// Two texts, one after the other.
pub fn text2(a: &str, b: &str) -> (r: String)
    ensures
        r@ == a@ + b@,
{
    let mut out = a.to_owned();
    out.append(b);
    out
}

/// Three texts, one after the other.
pub fn text3(a: &str, b: &str, c: &str) -> (r: String)
    ensures
        r@ == a@ + b@ + c@,
{
    let mut out = text2(a, b);
    out.append(c);
    out
}

/// Four texts, one after the other.
pub fn text4(a: &str, b: &str, c: &str, d: &str) -> (r: String)
    ensures
        r@ == a@ + b@ + c@ + d@,
{
    let mut out = text3(a, b, c);
    out.append(d);
    out
}

/// Five texts, one after the other.
pub fn text5(a: &str, b: &str, c: &str, d: &str, e: &str) -> (r: String)
    ensures
        r@ == a@ + b@ + c@ + d@ + e@,
{
    let mut out = text4(a, b, c, d);
    out.append(e);
    out
}

/// Six texts, one after the other.
pub fn text6(a: &str, b: &str, c: &str, d: &str, e: &str, f: &str) -> (r: String)
    ensures
        r@ == a@ + b@ + c@ + d@ + e@ + f@,
{
    let mut out = text5(a, b, c, d, e);
    out.append(f);
    out
}

// ---------------------------------------------------------------------------
// Trimming
// ---------------------------------------------------------------------------
/// The text without its leading white space.
pub open spec fn trim_start_of(s: Seq<char>) -> Seq<char>
    decreases s.len(),
{
    if s.len() > 0 && is_space(s[0]) {
        trim_start_of(s.drop_first())
    } else {
        s
    }
}

/// The text without its trailing white space.
pub open spec fn trim_end_of(s: Seq<char>) -> Seq<char>
    decreases s.len(),
{
    if s.len() > 0 && is_space(s.last()) {
        trim_end_of(s.drop_last())
    } else {
        s
    }
}

/// The text without white space at either end.
pub open spec fn trim_of(s: Seq<char>) -> Seq<char> {
    trim_end_of(trim_start_of(s))
}

/// Trimming adds no character, and keeps every character that is not white space.
pub proof fn lemma_trim_keeps(s: Seq<char>, c: char)
    ensures
        trim_of(s).contains(c) ==> s.contains(c),
        s.contains(c) && !is_space(c) ==> trim_of(s).contains(c),
{
    lemma_trim_start_keeps(s, c);
    lemma_trim_end_keeps(trim_start_of(s), c);
}

proof fn lemma_trim_start_keeps(s: Seq<char>, c: char)
    ensures
        trim_start_of(s).contains(c) ==> s.contains(c),
        s.contains(c) && !is_space(c) ==> trim_start_of(s).contains(c),
    decreases s.len(),
{
    if s.len() > 0 && is_space(s[0]) {
        let rest = s.drop_first();
        lemma_trim_start_keeps(rest, c);
        if rest.contains(c) {
            let k = choose|k: int| 0 <= k < rest.len() && rest[k] == c;
            assert(s[k + 1] == c);
        }
        if s.contains(c) && !is_space(c) {
            let k = choose|k: int| 0 <= k < s.len() && s[k] == c;
            assert(rest[k - 1] == c);
        }
    }
}

proof fn lemma_trim_end_keeps(s: Seq<char>, c: char)
    ensures
        trim_end_of(s).contains(c) ==> s.contains(c),
        s.contains(c) && !is_space(c) ==> trim_end_of(s).contains(c),
    decreases s.len(),
{
    if s.len() > 0 && is_space(s.last()) {
        let rest = s.drop_last();
        lemma_trim_end_keeps(rest, c);
        if rest.contains(c) {
            let k = choose|k: int| 0 <= k < rest.len() && rest[k] == c;
            assert(s[k] == c);
        }
        if s.contains(c) && !is_space(c) {
            let k = choose|k: int| 0 <= k < s.len() && s[k] == c;
            assert(rest[k] == c);
        }
    }
}

/// A trimmed text neither starts nor ends with white space.
pub proof fn lemma_trim_leaves_no_outer_space(s: Seq<char>)
    ensures
        trim_of(s).len() > 0 ==> !is_space(trim_of(s)[0]) && !is_space(trim_of(s).last()),
{
    lemma_trim_start_leaves_no_space(s);
    lemma_trim_end_leaves_no_space(trim_start_of(s));
}

proof fn lemma_trim_start_leaves_no_space(s: Seq<char>)
    ensures
        trim_start_of(s).len() > 0 ==> !is_space(trim_start_of(s)[0]),
    decreases s.len(),
{
    if s.len() > 0 && is_space(s[0]) {
        lemma_trim_start_leaves_no_space(s.drop_first());
    }
}

proof fn lemma_trim_end_leaves_no_space(s: Seq<char>)
    ensures
        trim_end_of(s).len() > 0 ==> !is_space(trim_end_of(s).last()) && trim_end_of(s)[0] == s[0],
    decreases s.len(),
{
    if s.len() > 0 && is_space(s.last()) {
        lemma_trim_end_leaves_no_space(s.drop_last());
    }
}

/// Where the text without surrounding white space starts and ends.
fn trim_bounds(chars: &Vec<char>) -> (r: (usize, usize))
    ensures
        r.0 <= r.1 <= chars@.len(),
        chars@.subrange(r.0 as int, r.1 as int) == trim_of(chars@),
{
    let mut start: usize = 0;
    assert(chars@.skip(0) =~= chars@);
    while start < chars.len() && char_is_space(chars[start])
        invariant
            start <= chars@.len(),
            trim_start_of(chars@) == trim_start_of(chars@.skip(start as int)),
        decreases chars@.len() - start,
    {
        proof {
            assert(chars@.skip(start as int).drop_first() =~= chars@.skip(start + 1));
        }
        start += 1;
    }
    let ghost rest = chars@.skip(start as int);
    assert(trim_start_of(chars@) == rest);
    let mut end: usize = chars.len();
    assert(rest =~= chars@.subrange(start as int, end as int));
    while end > start && char_is_space(chars[end - 1])
        invariant
            start <= end <= chars@.len(),
            trim_end_of(rest) == trim_end_of(chars@.subrange(start as int, end as int)),
        decreases end,
    {
        proof {
            assert(chars@.subrange(start as int, end as int).drop_last() =~= chars@.subrange(
                start as int,
                end - 1,
            ));
        }
        end -= 1;
    }
    (start, end)
}

/// The text without white space at either end.
pub fn trim(s: &str) -> (r: &str)
    ensures
        r@ == trim_of(s@),
{
    let chars = to_chars(s);
    let (start, end) = trim_bounds(&chars);
    s.substring_char(start, end)
}

/// The text without white space at its end.
pub fn trim_end(s: &str) -> (r: &str)
    ensures
        r@ == trim_end_of(s@),
{
    let chars = to_chars(s);
    let mut end: usize = chars.len();
    assert(chars@.take(end as int) =~= chars@);
    while end > 0 && char_is_space(chars[end - 1])
        invariant
            chars@ == s@,
            end <= chars@.len(),
            trim_end_of(s@) == trim_end_of(s@.take(end as int)),
        decreases end,
    {
        assert(s@.take(end as int).drop_last() =~= s@.take(end - 1));
        end -= 1;
    }
    let r = s.substring_char(0, end);
    assert(r@ =~= s@.take(end as int));
    r
}

// ---------------------------------------------------------------------------
// Length and equality
// ---------------------------------------------------------------------------
/// How many bytes the UTF-8 form of the text takes.
pub open spec fn utf8_len(s: Seq<char>) -> nat {
    encode_utf8(s).len()
}

pub fn byte_len(s: &str) -> (r: usize)
    ensures
        r == utf8_len(s@),
{
    s.as_bytes().len()
}

/// How many bytes one character takes in UTF-8.
pub open spec fn char_utf8_len(c: char) -> nat {
    if c as u32 <= 0x7f {
        1
    } else if c as u32 <= 0x7ff {
        2
    } else if c as u32 <= 0xffff {
        3
    } else {
        4
    }
}

pub fn char_byte_len(c: char) -> (r: usize)
    ensures
        r == char_utf8_len(c),
        1 <= r <= 4,
{
    let code: u32 = c as u32;
    if code <= 0x7f {
        1
    } else if code <= 0x7ff {
        2
    } else if code <= 0xffff {
        3
    } else {
        4
    }
}

/// The byte length is additive over the characters.
pub proof fn lemma_utf8_len_push(s: Seq<char>, c: char)
    ensures
        utf8_len(s.push(c)) == utf8_len(s) + char_utf8_len(c),
    decreases s.len(),
{
    vstd::utf8::char_is_scalar(c);
    if s.len() == 0 {
        assert(s.push(c).drop_first() =~= Seq::<char>::empty());
        assert(encode_utf8(s.push(c).drop_first()) =~= Seq::<u8>::empty());
        assert(s.push(c)[0] == c);
    } else {
        assert(s.push(c).drop_first() =~= s.drop_first().push(c));
        lemma_utf8_len_push(s.drop_first(), c);
    }
}

pub fn str_eq(a: &str, b: &str) -> (r: bool)
    ensures
        r == (a@ == b@),
{
    let x = a.as_bytes();
    let y = b.as_bytes();
    proof {
        encode_utf8_decode_utf8(a@);
        encode_utf8_decode_utf8(b@);
    }
    if x.len() != y.len() {
        return false;
    }
    let mut i: usize = 0;
    while i < x.len()
        invariant
            x@ == encode_utf8(a@),
            y@ == encode_utf8(b@),
            x@.len() == y@.len(),
            i <= x@.len(),
            x@.take(i as int) == y@.take(i as int),
        decreases x@.len() - i,
    {
        if x[i] != y[i] {
            return false;
        }
        proof {
            assert(x@.take(i + 1) =~= x@.take(i as int).push(x@[i as int]));
            assert(y@.take(i + 1) =~= y@.take(i as int).push(y@[i as int]));
        }
        i += 1;
    }
    assert(x@.take(i as int) =~= x@);
    assert(y@.take(i as int) =~= y@);
    true
}

pub fn char_count(s: &str) -> (r: usize)
    ensures
        r == s@.len(),
{
    s.unicode_len()
}

pub fn any_control(s: &str) -> (r: bool)
    ensures
        r == has_control(s@),
{
    let chars = to_chars(s);
    let mut i: usize = 0;
    while i < chars.len()
        invariant
            chars@ == s@,
            i <= chars@.len(),
            forall|k: int| 0 <= k < i ==> !is_control(#[trigger] s@[k]),
        decreases chars@.len() - i,
    {
        if char_is_control(chars[i]) {
            return true;
        }
        i += 1;
    }
    false
}

/// Some character is a control character.
pub open spec fn has_control(s: Seq<char>) -> bool {
    exists|k: int| 0 <= k < s.len() && is_control(#[trigger] s[k])
}

// ---------------------------------------------------------------------------
// Shortening
// ---------------------------------------------------------------------------
/// The trimmed text, cut to `max` characters with an ellipsis when it is longer.
pub open spec fn compact_of(s: Seq<char>, max: nat) -> Seq<char> {
    let t = trim_of(s);
    if t.len() <= max {
        t
    } else {
        t.take(if max >= 3 {
            max - 3
        } else {
            0
        }) + "..."@
    }
}

pub fn compact(s: &str, max: usize) -> (r: String)
    ensures
        r@ == compact_of(s@, max as nat),
{
    let t = trim(s);
    let n = char_count(t);
    if n <= max {
        return t.to_owned();
    }
    let keep: usize = if max >= 3 {
        max - 3
    } else {
        0
    };
    let mut out = t.substring_char(0, keep).to_owned();
    out.append("...");
    out
}

/// A compacted text never has more than `max` characters, as long as the ellipsis fits.
pub proof fn lemma_compact_bounded(s: Seq<char>, max: nat)
    requires
        max >= 3,
    ensures
        compact_of(s, max).len() <= max,
{
    reveal_strlit("...");
}

/// Compacting a compacted text changes nothing, as long as the ellipsis fits.
pub proof fn lemma_compact_is_stable(s: Seq<char>, max: nat)
    requires
        max >= 3,
    ensures
        compact_of(compact_of(s, max), max) == compact_of(s, max),
{
    reveal_strlit("...");
    lemma_compact_bounded(s, max);
    lemma_trim_leaves_no_outer_space(s);
    let t = trim_of(s);
    let c = compact_of(s, max);
    if t.len() > max {
        assert(c.last() == '.');
        if max > 3 {
            assert(c[0] == t[0]);
        } else {
            assert(c[0] == '.');
        }
    }
    assert(trim_start_of(c) == c);
    assert(trim_end_of(c) == c);
}

// ---------------------------------------------------------------------------
// Prefixes, suffixes and occurrences
// ---------------------------------------------------------------------------
/// `pattern` stands in `s` at position `at`.
pub open spec fn occurs_at(s: Seq<char>, pattern: Seq<char>, at: int) -> bool {
    &&& 0 <= at
    &&& at + pattern.len() <= s.len()
    &&& s.subrange(at, at + pattern.len()) == pattern
}

/// `pattern` stands somewhere in `s`.
pub open spec fn occurs_in(s: Seq<char>, pattern: Seq<char>) -> bool {
    exists|at: int| occurs_at(s, pattern, at)
}

fn chars_at(s: &Vec<char>, pattern: &Vec<char>, at: usize) -> (r: bool)
    requires
        at <= s@.len(),
    ensures
        r == occurs_at(s@, pattern@, at as int),
{
    if pattern.len() > s.len() - at {
        return false;
    }
    let n: usize = s.len();
    let mut i: usize = 0;
    while i < pattern.len()
        invariant
            n == s@.len(),
            i <= pattern@.len(),
            at + pattern@.len() <= n,
            forall|k: int| 0 <= k < i ==> #[trigger] s@[at + k] == pattern@[k],
        decreases pattern@.len() - i,
    {
        if s[at + i] != pattern[i] {
            proof {
                assert(s@.subrange(at as int, at + pattern@.len())[i as int] != pattern@[i as int]);
            }
            return false;
        }
        i += 1;
    }
    assert forall|k: int| 0 <= k < pattern@.len() implies s@.subrange(
        at as int,
        at + pattern@.len(),
    )[k] == pattern@[k] by {
        assert(s@[at + k] == pattern@[k]);
    }
    assert(s@.subrange(at as int, at + pattern@.len()) =~= pattern@);
    true
}

pub fn starts_with(s: &str, prefix: &str) -> (r: bool)
    ensures
        r == occurs_at(s@, prefix@, 0),
{
    let a = to_chars(s);
    let b = to_chars(prefix);
    chars_at(&a, &b, 0)
}

pub fn contains(s: &str, pattern: &str) -> (r: bool)
    ensures
        r == occurs_in(s@, pattern@),
{
    let a = to_chars(s);
    let b = to_chars(pattern);
    let mut at: usize = 0;
    loop
        invariant
            a@ == s@,
            b@ == pattern@,
            at <= a@.len(),
            forall|k: int| 0 <= k < at ==> !#[trigger] occurs_at(s@, pattern@, k),
        decreases a@.len() - at,
    {
        if chars_at(&a, &b, at) {
            return true;
        }
        if at == a.len() {
            return false;
        }
        at += 1;
    }
}

/// Some character of the text is `c`.
pub fn contains_char(s: &str, c: char) -> (r: bool)
    ensures
        r == s@.contains(c),
{
    let chars = to_chars(s);
    let mut i: usize = 0;
    while i < chars.len()
        invariant
            chars@ == s@,
            i <= chars@.len(),
            forall|k: int| 0 <= k < i ==> #[trigger] s@[k] != c,
        decreases chars@.len() - i,
    {
        if chars[i] == c {
            assert(s@[i as int] == c);
            return true;
        }
        i += 1;
    }
    false
}

/// What follows the prefix, when the text starts with it.
pub open spec fn strip_prefix_of(s: Seq<char>, prefix: Seq<char>) -> Option<Seq<char>> {
    if occurs_at(s, prefix, 0) {
        Some(s.skip(prefix.len() as int))
    } else {
        None
    }
}

pub fn strip_prefix<'a>(s: &'a str, prefix: &str) -> (r: Option<&'a str>)
    ensures
        r is Some == strip_prefix_of(s@, prefix@) is Some,
        r is Some ==> r->0@ == strip_prefix_of(s@, prefix@)->0,
{
    if starts_with(s, prefix) {
        let rest = s.substring_char(char_count(prefix), char_count(s));
        assert(rest@ =~= s@.skip(prefix@.len() as int));
        Some(rest)
    } else {
        None
    }
}

/// Every non-overlapping occurrence of `pattern`, from left to right, gives way to
/// `replacement`.
pub open spec fn replace_of(s: Seq<char>, pattern: Seq<char>, replacement: Seq<char>) -> Seq<char>
    decreases s.len(),
{
    if pattern.len() == 0 || s.len() < pattern.len() {
        s
    } else if occurs_at(s, pattern, 0) {
        replacement + replace_of(s.skip(pattern.len() as int), pattern, replacement)
    } else {
        seq![s[0]] + replace_of(s.drop_first(), pattern, replacement)
    }
}

pub fn replace(s: &str, pattern: &str, replacement: &str) -> (r: String)
    requires
        pattern@.len() > 0,
    ensures
        r@ == replace_of(s@, pattern@, replacement@),
{
    let a = to_chars(s);
    let b = to_chars(pattern);
    let mut out = String::new();
    let mut i: usize = 0;
    proof {
        assert(a@.skip(0) =~= a@);
        assert(replace_of(s@, pattern@, replacement@) =~= Seq::<char>::empty() + replace_of(
            s@,
            pattern@,
            replacement@,
        ));
    }
    while i < a.len()
        invariant
            a@ == s@,
            b@ == pattern@,
            b@.len() > 0,
            i <= a@.len(),
            replace_of(s@, pattern@, replacement@) == out@ + replace_of(
                s@.skip(i as int),
                pattern@,
                replacement@,
            ),
        decreases a@.len() - i,
    {
        let ghost rest = s@.skip(i as int);
        let ghost before = out@;
        if chars_at(&a, &b, i) {
            out.append(replacement);
            proof {
                assert(rest.subrange(0, b@.len() as int) =~= a@.subrange(i as int, i + b@.len()));
                assert(rest.skip(b@.len() as int) =~= s@.skip(i + b@.len()));
                assert(before + replacement@ + replace_of(
                    s@.skip(i + b@.len()),
                    pattern@,
                    replacement@,
                ) =~= before + (replacement@ + replace_of(
                    s@.skip(i + b@.len()),
                    pattern@,
                    replacement@,
                )));
            }
            i += b.len();
        } else {
            out.push(a[i]);
            proof {
                if rest.len() >= b@.len() {
                    assert(rest.subrange(0, b@.len() as int) =~= a@.subrange(
                        i as int,
                        i + b@.len(),
                    ));
                    assert(!occurs_at(rest, pattern@, 0));
                    assert(rest.drop_first() =~= s@.skip(i + 1));
                    assert(out@ + replace_of(s@.skip(i + 1), pattern@, replacement@) =~= before + (
                    seq![rest[0]] + replace_of(s@.skip(i + 1), pattern@, replacement@)));
                } else {
                    assert(replace_of(rest, pattern@, replacement@) == rest);
                    assert(replace_of(s@.skip(i + 1), pattern@, replacement@) == s@.skip(i + 1));
                    assert(out@ + s@.skip(i + 1) =~= before + rest);
                }
            }
            i += 1;
        }
    }
    proof {
        assert(s@.skip(i as int) =~= Seq::<char>::empty());
        assert(out@ + Seq::<char>::empty() =~= out@);
    }
    out
}

/// A text in which the pattern does not occur is left as it is.
pub proof fn lemma_replace_absent(s: Seq<char>, pattern: Seq<char>, replacement: Seq<char>)
    requires
        !occurs_in(s, pattern),
    ensures
        replace_of(s, pattern, replacement) == s,
    decreases s.len(),
{
    if pattern.len() == 0 || s.len() < pattern.len() {
    } else {
        assert(!occurs_at(s, pattern, 0));
        let rest = s.drop_first();
        assert forall|at: int| !occurs_at(rest, pattern, at) by {
            if occurs_at(rest, pattern, at) {
                assert(s.subrange(at + 1, at + 1 + pattern.len()) =~= rest.subrange(
                    at,
                    at + pattern.len(),
                ));
                assert(occurs_at(s, pattern, at + 1));
            }
        }
        lemma_replace_absent(rest, pattern, replacement);
        assert(seq![s[0]] + rest =~= s);
    }
}

// ---------------------------------------------------------------------------
// ASCII case
// ---------------------------------------------------------------------------
pub open spec fn lower(c: char) -> char {
    if 'A' <= c <= 'Z' {
        ((c as u32 + 32) as u8) as char
    } else {
        c
    }
}

pub open spec fn lower_of(s: Seq<char>) -> Seq<char> {
    s.map_values(|c: char| lower(c))
}

pub fn char_lower(c: char) -> (r: char)
    ensures
        r == lower(c),
{
    if 'A' <= c && c <= 'Z' {
        ((c as u32 + 32) as u8) as char
    } else {
        c
    }
}

/// ASCII letters in lower case, every other character as it is.
pub fn to_ascii_lowercase(s: &str) -> (r: String)
    ensures
        r@ == lower_of(s@),
{
    let chars = to_chars(s);
    let mut out = String::new();
    let mut i: usize = 0;
    while i < chars.len()
        invariant
            chars@ == s@,
            i <= chars@.len(),
            out@ == lower_of(s@.take(i as int)),
        decreases chars@.len() - i,
    {
        out.push(char_lower(chars[i]));
        assert(lower_of(s@.take(i + 1)) =~= lower_of(s@.take(i as int)).push(lower(s@[i as int])));
        i += 1;
    }
    assert(s@.take(i as int) =~= s@);
    out
}

/// The capital of an ASCII letter; other characters as they are.
pub open spec fn upper(c: char) -> char {
    if is_ascii_lower(c) {
        ((c as u32) - 32) as char
    } else {
        c
    }
}

pub open spec fn upper_of(s: Seq<char>) -> Seq<char> {
    Seq::new(s.len(), |k: int| upper(s[k]))
}

pub fn to_ascii_uppercase(s: &str) -> (r: String)
    ensures
        r@ == upper_of(s@),
{
    let chars = to_chars(s);
    let mut out = String::new();
    let n: usize = chars.len();
    let mut i: usize = 0;
    while i < n
        invariant
            n == chars@.len(),
            chars@ == s@,
            i <= n,
            out@ == upper_of(s@).take(i as int),
        decreases n - i,
    {
        let c = chars[i];
        if 'a' <= c && c <= 'z' {
            out.push(((c as u8) - 32) as char);
        } else {
            out.push(c);
        }
        assert(out@ =~= upper_of(s@).take(i + 1));
        i += 1;
    }
    assert(upper_of(s@).take(n as int) =~= upper_of(s@));
    out
}

pub open spec fn is_ascii_lower(c: char) -> bool {
    'a' <= c <= 'z'
}

pub open spec fn is_ascii_upper(c: char) -> bool {
    'A' <= c <= 'Z'
}

pub open spec fn is_ascii_digit(c: char) -> bool {
    '0' <= c <= '9'
}

pub open spec fn is_ascii_alnum(c: char) -> bool {
    is_ascii_lower(c) || is_ascii_upper(c) || is_ascii_digit(c)
}

pub fn char_is_ascii_alnum(c: char) -> (r: bool)
    ensures
        r == is_ascii_alnum(c),
{
    ('a' <= c && c <= 'z') || ('A' <= c && c <= 'Z') || ('0' <= c && c <= '9')
}

// ---------------------------------------------------------------------------
// Splitting and joining
// ---------------------------------------------------------------------------
/// How many characters stand before the first `c`; all of them when there is none.
pub open spec fn cut(s: Seq<char>, c: char) -> nat
    decreases s.len(),
{
    if s.len() == 0 || s[0] == c {
        0
    } else {
        1 + cut(s.drop_first(), c)
    }
}

pub proof fn lemma_cut(s: Seq<char>, c: char)
    ensures
        cut(s, c) <= s.len(),
        cut(s, c) < s.len() ==> s[cut(s, c) as int] == c,
        forall|k: int| 0 <= k < cut(s, c) ==> #[trigger] s[k] != c,
    decreases s.len(),
{
    if s.len() == 0 || s[0] == c {
    } else {
        let rest = s.drop_first();
        lemma_cut(rest, c);
        assert forall|k: int| 0 <= k < cut(s, c) implies #[trigger] s[k] != c by {
            if k > 0 {
                assert(s[k] == rest[k - 1]);
            }
        }
    }
}

/// The position of the first `c` at or after `from`, counted from `from`.
pub fn find_char(chars: &Vec<char>, from: usize, c: char) -> (r: usize)
    requires
        from <= chars@.len(),
    ensures
        r == cut(chars@.skip(from as int), c),
        from + r <= chars@.len(),
{
    let mut i: usize = from;
    while i < chars.len() && chars[i] != c
        invariant
            from <= i <= chars@.len(),
            cut(chars@.skip(from as int), c) == (i - from) + cut(chars@.skip(i as int), c),
        decreases chars@.len() - i,
    {
        assert(chars@.skip(i as int).drop_first() =~= chars@.skip(i + 1));
        i += 1;
    }
    i - from
}

/// The pieces between the occurrences of `c`.
pub open spec fn split_of(s: Seq<char>, c: char) -> Seq<Seq<char>>
    decreases s.len(),
{
    let k = cut(s, c) as int;
    if k >= s.len() {
        seq![s]
    } else {
        seq![s.take(k)] + split_of(s.skip(k + 1), c)
    }
}

/// The text of each string.
pub open spec fn texts(v: Seq<String>) -> Seq<Seq<char>> {
    v.map_values(|s: String| s@)
}

pub fn split(s: &str, c: char) -> (r: Vec<String>)
    ensures
        texts(r@) == split_of(s@, c),
        r@.len() > 0,
{
    let chars = to_chars(s);
    let mut out: Vec<String> = Vec::new();
    let mut i: usize = 0;
    proof {
        assert(chars@.skip(0) =~= chars@);
        assert(split_of(s@, c) =~= texts(out@) + split_of(s@, c));
    }
    loop
        invariant
            chars@ == s@,
            i <= chars@.len(),
            split_of(s@, c) == texts(out@) + split_of(s@.skip(i as int), c),
        decreases chars@.len() - i,
    {
        let n: usize = chars.len();
        let k = find_char(&chars, i, c);
        let piece = s.substring_char(i, i + k).to_owned();
        let ghost before = out@;
        let ghost rest = s@.skip(i as int);
        out.push(piece);
        proof {
            lemma_cut(rest, c);
            assert(piece@ =~= rest.take(k as int));
            assert(texts(out@) =~= texts(before).push(piece@));
        }
        if i + k == chars.len() {
            proof {
                assert(rest.take(k as int) =~= rest);
                assert(texts(before) + seq![rest] =~= texts(before).push(rest));
            }
            return out;
        }
        proof {
            assert(rest.skip(k + 1) =~= s@.skip(i + k + 1));
            let tail = split_of(s@.skip(i + k + 1), c);
            assert(texts(before) + (seq![rest.take(k as int)] + tail) =~= texts(out@) + tail);
        }
        i = i + k + 1;
    }
}

/// A line without the carriage return that belongs to its line ending.
pub open spec fn strip_cr(s: Seq<char>) -> Seq<char> {
    if s.len() > 0 && s.last() == '\r' {
        s.drop_last()
    } else {
        s
    }
}

/// The lines of a text, each without its `\n` or `\r\n`; a last line without an ending counts.
pub open spec fn lines_of(s: Seq<char>) -> Seq<Seq<char>>
    decreases s.len(),
{
    let k = cut(s, '\n') as int;
    if s.len() == 0 {
        seq![]
    } else if k >= s.len() {
        seq![s]
    } else {
        seq![strip_cr(s.take(k))] + lines_of(s.skip(k + 1))
    }
}

pub fn lines(s: &str) -> (r: Vec<String>)
    ensures
        texts(r@) == lines_of(s@),
{
    let chars = to_chars(s);
    let mut out: Vec<String> = Vec::new();
    let mut i: usize = 0;
    proof {
        assert(chars@.skip(0) =~= chars@);
        assert(lines_of(s@) =~= texts(out@) + lines_of(s@));
    }
    while i < chars.len()
        invariant
            chars@ == s@,
            i <= chars@.len(),
            lines_of(s@) == texts(out@) + lines_of(s@.skip(i as int)),
        decreases chars@.len() - i,
    {
        let k = find_char(&chars, i, '\n');
        let ghost before = out@;
        let ghost rest = s@.skip(i as int);
        proof {
            lemma_cut(rest, '\n');
        }
        if i + k == chars.len() {
            let piece = s.substring_char(i, i + k).to_owned();
            out.push(piece);
            proof {
                assert(piece@ =~= rest);
                assert(texts(out@) =~= texts(before).push(rest));
                assert(texts(before) + seq![rest] =~= texts(before).push(rest));
            }
            return out;
        }
        let end: usize = if k > 0 && chars[i + k - 1] == '\r' {
            i + k - 1
        } else {
            i + k
        };
        let piece = s.substring_char(i, end).to_owned();
        out.push(piece);
        proof {
            assert(piece@ =~= strip_cr(rest.take(k as int)));
            assert(texts(out@) =~= texts(before).push(piece@));
            assert(rest.skip(k + 1) =~= s@.skip(i + k + 1));
            let tail = lines_of(s@.skip(i + k + 1));
            assert(texts(before) + (seq![strip_cr(rest.take(k as int))] + tail) =~= texts(out@)
                + tail);
        }
        i = i + k + 1;
    }
    proof {
        assert(s@.skip(i as int) =~= Seq::<char>::empty());
        assert(texts(out@) + lines_of(s@.skip(i as int)) =~= texts(out@));
    }
    out
}

/// The pieces one after the other, with `separator` between neighbours.
pub open spec fn join_of(pieces: Seq<Seq<char>>, separator: Seq<char>) -> Seq<char>
    decreases pieces.len(),
{
    if pieces.len() == 0 {
        seq![]
    } else if pieces.len() == 1 {
        pieces[0]
    } else {
        join_of(pieces.drop_last(), separator) + separator + pieces.last()
    }
}

pub fn join(pieces: &[String], separator: &str) -> (r: String)
    ensures
        r@ == join_of(texts(pieces@), separator@),
{
    let mut out = String::new();
    let mut i: usize = 0;
    while i < pieces.len()
        invariant
            i <= pieces@.len(),
            out@ == join_of(texts(pieces@.take(i as int)), separator@),
        decreases pieces@.len() - i,
    {
        if i > 0 {
            out.append(separator);
        }
        out.append(pieces[i].as_str());
        proof {
            let next = texts(pieces@.take(i + 1));
            assert(next.drop_last() =~= texts(pieces@.take(i as int)));
            assert(next.last() == pieces@[i as int]@);
            if i == 0 {
                assert(out@ =~= next[0]);
            }
        }
        i += 1;
    }
    assert(pieces@.take(i as int) =~= pieces@);
    out
}

// ---------------------------------------------------------------------------
// Numbers
// ---------------------------------------------------------------------------
pub open spec fn digit_char(d: nat) -> char {
    if d < 10 {
        ((48 + d) as u8) as char
    } else {
        ((87 + d) as u8) as char
    }
}

/// `n` in decimal, without leading zeros.
pub open spec fn decimal_of(n: nat) -> Seq<char>
    decreases n,
{
    if n < 10 {
        seq![digit_char(n)]
    } else {
        decimal_of(n / 10).push(digit_char(n % 10))
    }
}

/// `n` in lower-case hexadecimal, without leading zeros.
pub open spec fn hex_of(n: nat) -> Seq<char>
    decreases n,
{
    if n < 16 {
        seq![digit_char(n)]
    } else {
        hex_of(n / 16).push(digit_char(n % 16))
    }
}

fn digit(d: u64) -> (r: char)
    requires
        d < 16,
    ensures
        r == digit_char(d as nat),
{
    if d < 10 {
        ((48 + d) as u8) as char
    } else {
        ((87 + d) as u8) as char
    }
}

/// A digit for a number below ten.
fn decimal_digit(d: u128) -> (r: char)
    requires
        d < 10,
    ensures
        r == digit_char(d as nat),
{
    ((48 + d) as u8) as char
}

pub fn decimal_u128(n: u128) -> (r: String)
    ensures
        r@ == decimal_of(n as nat),
    decreases n,
{
    if n < 10 {
        let mut out = String::new();
        out.push(decimal_digit(n));
        assert(out@ =~= seq![digit_char(n as nat)]);
        out
    } else {
        let mut out = decimal_u128(n / 10);
        out.push(decimal_digit(n % 10));
        out
    }
}

pub fn decimal(n: u64) -> (r: String)
    ensures
        r@ == decimal_of(n as nat),
{
    decimal_u128(n as u128)
}

/// The decimal digits of an integer, with a sign where it is negative.
pub open spec fn signed_decimal_of(n: int) -> Seq<char> {
    if n < 0 {
        "-"@ + decimal_of((-n) as nat)
    } else {
        decimal_of(n as nat)
    }
}

pub fn signed_decimal(n: i64) -> (r: String)
    ensures
        r@ == signed_decimal_of(n as int),
{
    if n < 0 {
        let magnitude: u128 = (-(n as i128)) as u128;
        text2("-", decimal_u128(magnitude).as_str())
    } else {
        decimal(n as u64)
    }
}

/// Ten to the power of `k`.
pub open spec fn pow10(k: nat) -> nat
    decreases k,
{
    if k == 0 {
        1
    } else {
        10 * pow10((k - 1) as nat)
    }
}

/// A number below ten to the power of `k` has at most `k` digits, and nothing but digits.
pub proof fn lemma_decimal_digits(n: nat, k: nat)
    requires
        k >= 1,
        n < pow10(k),
    ensures
        1 <= decimal_of(n).len() <= k,
        forall|i: int| 0 <= i < decimal_of(n).len() ==> is_ascii_digit(#[trigger] decimal_of(n)[i]),
    decreases k,
{
    if n >= 10 {
        assert(k >= 2) by {
            if k == 1 {
                assert(pow10(1) == 10 * pow10(0));
            }
        }
        lemma_decimal_digits(n / 10, (k - 1) as nat);
        lemma_digit_char(n % 10);
    } else {
        lemma_digit_char(n);
    }
}

proof fn lemma_digit_char(d: nat)
    requires
        d < 10,
    ensures
        is_ascii_digit(digit_char(d)),
{
}

pub fn hex(n: u64) -> (r: String)
    ensures
        r@ == hex_of(n as nat),
{
    hex_u128(n as u128)
}

pub fn hex_u128(n: u128) -> (r: String)
    ensures
        r@ == hex_of(n as nat),
    decreases n,
{
    if n < 16 {
        let mut out = String::new();
        out.push(digit(n as u64));
        assert(out@ =~= seq![digit_char(n as nat)]);
        out
    } else {
        let mut out = hex_u128(n / 16);
        out.push(digit((n % 16) as u64));
        out
    }
}

/// `n` in lower-case hexadecimal, filled with zeros on the left up to `width` digits.
pub open spec fn padded_hex_of(n: nat, width: nat) -> Seq<char> {
    let d = hex_of(n);
    if d.len() >= width {
        d
    } else {
        Seq::new((width - d.len()) as nat, |i: int| '0') + d
    }
}

pub fn padded_hex(n: u64, width: usize) -> (r: String)
    ensures
        r@ == padded_hex_of(n as nat, width as nat),
{
    let d = hex(n);
    let len = char_count(d.as_str());
    let mut out = String::new();
    if len >= width {
        return d;
    }
    let missing: usize = width - len;
    let mut i: usize = 0;
    while i < missing
        invariant
            i <= missing,
            out@ == Seq::new(i as nat, |k: int| '0'),
        decreases missing - i,
    {
        out.push('0');
        assert(out@ =~= Seq::new((i + 1) as nat, |k: int| '0'));
        i += 1;
    }
    out.append(d.as_str());
    out
}

// ---------------------------------------------------------------------------
// Bytes
// ---------------------------------------------------------------------------
/// How [`String::from_utf8`] explains that bytes are not valid UTF-8.
pub uninterp spec fn utf8_problem(bytes: Seq<u8>) -> Seq<char>;

/// `String::from_utf8`: the text whose UTF-8 form the bytes are, when they are valid UTF-8,
/// and otherwise the sentence that explains where they are not.
#[verifier::external_body]
pub(crate) fn utf8_text(bytes: Vec<u8>) -> (r: Result<String, String>)
    ensures
        r is Ok == valid_utf8(bytes@),
        r is Ok ==> r->Ok_0@ == decode_utf8(bytes@),
        r is Err ==> r->Err_0@ == utf8_problem(bytes@),
{
    String::from_utf8(bytes).map_err(|error| error.utf8_error().to_string())
}

/// The text that [`String::from_utf8_lossy`] makes of some bytes.
pub uninterp spec fn lossy_text(bytes: Seq<u8>) -> Seq<char>;

/// `String::from_utf8_lossy`: valid UTF-8 is kept as it is; what is not valid gives way to
/// replacement characters, in a way that is left unsaid here.
#[verifier::external_body]
pub(crate) fn utf8_lossy(bytes: &Vec<u8>) -> (r: String)
    ensures
        r@ == lossy_text(bytes@),
        valid_utf8(bytes@) ==> r@ == decode_utf8(bytes@),
{
    String::from_utf8_lossy(bytes).into_owned()
}

/// How `{:?}` shows a text: in quotes, with escapes where they are needed.
pub uninterp spec fn quoted_text(s: Seq<char>) -> Seq<char>;

/// `<str as Debug>::fmt`: the text in quotes, with the escapes that Rust gives it.
#[verifier::external_body]
pub(crate) fn quoted(s: &str) -> (r: String)
    ensures
        r@ == quoted_text(s@),
{
    format!("{s:?}")
}

/// The UTF-8 bytes of a text.
pub fn to_bytes(s: &str) -> (r: Vec<u8>)
    ensures
        r@ == encode_utf8(s@),
{
    s.as_bytes_vec()
}

/// Both lists hold the same texts in the same order.
pub fn same_texts(a: &Vec<String>, b: &Vec<String>) -> (r: bool)
    ensures
        r == (texts(a@) == texts(b@)),
{
    if a.len() != b.len() {
        assert(texts(a@).len() != texts(b@).len());
        return false;
    }
    let mut i: usize = 0;
    while i < a.len()
        invariant
            a@.len() == b@.len(),
            i <= a@.len(),
            forall|k: int| 0 <= k < i ==> (#[trigger] a@[k])@ == b@[k]@,
        decreases a@.len() - i,
    {
        if !str_eq(a[i].as_str(), b[i].as_str()) {
            assert(texts(a@)[i as int] != texts(b@)[i as int]);
            return false;
        }
        i += 1;
    }
    assert(texts(a@) =~= texts(b@));
    true
}

/// The text without the run of `c` at its end.
pub open spec fn trim_end_char_of(s: Seq<char>, c: char) -> Seq<char>
    decreases s.len(),
{
    if s.len() > 0 && s.last() == c {
        trim_end_char_of(s.drop_last(), c)
    } else {
        s
    }
}

pub fn trim_end_char(s: &str, c: char) -> (r: &str)
    ensures
        r@ == trim_end_char_of(s@, c),
{
    let chars = to_chars(s);
    let mut end: usize = chars.len();
    assert(chars@.take(end as int) =~= chars@);
    while end > 0 && chars[end - 1] == c
        invariant
            chars@ == s@,
            end <= chars@.len(),
            trim_end_char_of(s@, c) == trim_end_char_of(s@.take(end as int), c),
        decreases end,
    {
        assert(s@.take(end as int).drop_last() =~= s@.take(end - 1));
        end -= 1;
    }
    let r = s.substring_char(0, end);
    assert(r@ =~= s@.take(end as int));
    r
}

/// The text without the run of `c` at its start.
pub open spec fn trim_start_char_of(s: Seq<char>, c: char) -> Seq<char>
    decreases s.len(),
{
    if s.len() > 0 && s[0] == c {
        trim_start_char_of(s.drop_first(), c)
    } else {
        s
    }
}

pub fn trim_start_char(s: &str, c: char) -> (r: &str)
    ensures
        r@ == trim_start_char_of(s@, c),
{
    let chars = to_chars(s);
    let mut start: usize = 0;
    assert(chars@.skip(0) =~= chars@);
    while start < chars.len() && chars[start] == c
        invariant
            chars@ == s@,
            start <= chars@.len(),
            trim_start_char_of(s@, c) == trim_start_char_of(s@.skip(start as int), c),
        decreases chars@.len() - start,
    {
        assert(s@.skip(start as int).drop_first() =~= s@.skip(start + 1));
        start += 1;
    }
    let r = s.substring_char(start, chars.len());
    assert(r@ =~= s@.skip(start as int));
    r
}

/// The text with `from` replaced by `to` wherever it stands.
pub open spec fn swap_char_of(s: Seq<char>, from: char, to: char) -> Seq<char> {
    s.map_values(|c: char| if c == from { to } else { c })
}

pub fn swap_char(s: &str, from: char, to: char) -> (r: String)
    ensures
        r@ == swap_char_of(s@, from, to),
{
    let chars = to_chars(s);
    let mut out = String::new();
    let mut i: usize = 0;
    while i < chars.len()
        invariant
            chars@ == s@,
            i <= chars@.len(),
            out@ == swap_char_of(s@.take(i as int), from, to),
        decreases chars@.len() - i,
    {
        let c = chars[i];
        out.push(if c == from { to } else { c });
        assert(swap_char_of(s@.take(i + 1), from, to) =~= out@);
        i += 1;
    }
    assert(s@.take(i as int) =~= s@);
    out
}

// ---------------------------------------------------------------------------
// What the functions on texts mean
// ---------------------------------------------------------------------------
/// The number that a text of decimal digits spells.
pub open spec fn number_of(digits: Seq<char>) -> int
    decreases digits.len(),
{
    if digits.len() == 0 {
        0
    } else {
        10 * number_of(digits.drop_last()) + (digits.last() as u32 - 48)
    }
}

/// A number is written so that its digits spell it.
pub proof fn lemma_decimal_spells_the_number(n: nat)
    ensures
        number_of(decimal_of(n)) == n,
        decimal_of(n).len() > 0,
    decreases n,
{
    if n < 10 {
        assert(decimal_of(n).drop_last() =~= Seq::empty());
        assert(number_of(Seq::empty()) == 0);
    } else {
        lemma_decimal_spells_the_number(n / 10);
        assert(decimal_of(n).drop_last() =~= decimal_of(n / 10));
    }
}

/// Different numbers are written differently.
pub proof fn lemma_decimal_tells_numbers_apart(a: nat, b: nat)
    requires
        decimal_of(a) == decimal_of(b),
    ensures
        a == b,
{
    lemma_decimal_spells_the_number(a);
    lemma_decimal_spells_the_number(b);
}

/// Trimming takes white space from the two ends and nothing else: the text is the trimmed one
/// between two runs of white space.
pub proof fn lemma_trim_takes_only_outer_space(s: Seq<char>)
    ensures
        exists|before: Seq<char>, after: Seq<char>|
            #[trigger] (before + trim_of(s) + after) == s && all_space(before) && all_space(after),
{
    lemma_trim_start_takes_space(s);
    let t = trim_start_of(s);
    lemma_trim_end_takes_space(t);
    let before = s.take(s.len() - t.len());
    let after = t.skip(trim_of(s).len() as int);
    assert(before + trim_of(s) + after =~= s);
}

/// Every character is white space.
pub open spec fn all_space(s: Seq<char>) -> bool {
    forall|k: int| 0 <= k < s.len() ==> is_space(#[trigger] s[k])
}

proof fn lemma_trim_start_takes_space(s: Seq<char>)
    ensures
        trim_start_of(s).len() <= s.len(),
        s.skip(s.len() - trim_start_of(s).len()) == trim_start_of(s),
        all_space(s.take(s.len() - trim_start_of(s).len())),
    decreases s.len(),
{
    if s.len() > 0 && is_space(s[0]) {
        let rest = s.drop_first();
        lemma_trim_start_takes_space(rest);
        let t = trim_start_of(s);
        assert(s.skip(s.len() - t.len()) =~= rest.skip(rest.len() - t.len()));
        let head = s.take(s.len() - t.len());
        assert forall|k: int| 0 <= k < head.len() implies is_space(#[trigger] head[k]) by {
            if k > 0 {
                assert(head[k] == rest.take(rest.len() - t.len())[k - 1]);
            }
        }
    } else {
        assert(s.skip(0) =~= s);
    }
}

proof fn lemma_trim_end_takes_space(s: Seq<char>)
    ensures
        trim_end_of(s).len() <= s.len(),
        s.take(trim_end_of(s).len() as int) == trim_end_of(s),
        all_space(s.skip(trim_end_of(s).len() as int)),
    decreases s.len(),
{
    if s.len() > 0 && is_space(s.last()) {
        let rest = s.drop_last();
        lemma_trim_end_takes_space(rest);
        let t = trim_end_of(s);
        assert(s.take(t.len() as int) =~= rest.take(t.len() as int));
        let tail = s.skip(t.len() as int);
        assert forall|k: int| 0 <= k < tail.len() implies is_space(#[trigger] tail[k]) by {
            if k < tail.len() - 1 {
                assert(tail[k] == rest.skip(t.len() as int)[k]);
            }
        }
    } else {
        assert(s.take(s.len() as int) =~= s);
    }
}

/// A text is cut at every separator and nowhere else: no piece holds one, and joining the pieces
/// with it gives the text back.
pub proof fn lemma_split_cuts_at_separators(s: Seq<char>, c: char)
    ensures
        split_of(s, c).len() > 0,
        join_of(split_of(s, c), seq![c]) == s,
        forall|k: int| 0 <= k < split_of(s, c).len() ==> !(#[trigger] split_of(s, c)[k]).contains(c),
    decreases s.len(),
{
    let k = cut(s, c) as int;
    lemma_cut(s, c);
    if k < s.len() {
        let rest = s.skip(k + 1);
        lemma_split_cuts_at_separators(rest, c);
        lemma_join_behind(s.take(k), split_of(rest, c), seq![c]);
        assert(s =~= s.take(k) + seq![c] + rest);
        assert forall|i: int| 0 <= i < split_of(s, c).len() implies !(#[trigger] split_of(
            s,
            c,
        )[i]).contains(c) by {
            if i == 0 {
                assert(split_of(s, c)[0] == s.take(k));
            } else {
                assert(split_of(s, c)[i] == split_of(rest, c)[i - 1]);
            }
        }
    } else {
        assert(split_of(s, c)[0] == s);
    }
}

proof fn lemma_join_behind(first: Seq<char>, rest: Seq<Seq<char>>, separator: Seq<char>)
    requires
        rest.len() > 0,
    ensures
        join_of(seq![first] + rest, separator) == first + separator + join_of(rest, separator),
    decreases rest.len(),
{
    let all = seq![first] + rest;
    assert(all.last() == rest.last());
    if rest.len() == 1 {
        assert(all.drop_last() =~= seq![first]);
        assert(join_of(seq![first], separator) =~= first);
    } else {
        assert(all.drop_last() =~= seq![first] + rest.drop_last());
        lemma_join_behind(first, rest.drop_last(), separator);
        let middle = join_of(rest.drop_last(), separator);
        assert((first + separator + middle) + separator + rest.last() =~= first + separator + (
        middle + separator + rest.last()));
    }
}

/// Each line of a text is what stands between two line ends: none holds one, and putting the
/// first line in front of a text makes it its first line.
pub proof fn lemma_lines_are_taken_one_by_one(line: Seq<char>, rest: Seq<char>)
    requires
        !line.contains('\n'),
    ensures
        lines_of(line + seq!['\n'] + rest) == seq![strip_cr(line)] + lines_of(rest),
        line.len() > 0 ==> lines_of(line) == seq![line],
        lines_of(Seq::<char>::empty()).len() == 0,
{
    let s = line + seq!['\n'] + rest;
    lemma_cut(s, '\n');
    let k = cut(s, '\n') as int;
    if k < line.len() {
        assert(s[k] == line[k]);
        assert(line.contains('\n'));
    } else if k > line.len() {
        assert(s[line.len() as int] == '\n');
    }
    assert(s.take(k) =~= line);
    assert(s.skip(k + 1) =~= rest);
    lemma_cut(line, '\n');
    if cut(line, '\n') < line.len() {
        assert(line.contains(line[cut(line, '\n') as int]));
    }
}

/// A text is lowered letter by letter: the capital letters of ASCII become the small ones that
/// stand 32 places behind them, and every other character stays.
pub proof fn lemma_lower_changes_capitals_only(s: Seq<char>, k: int)
    requires
        0 <= k < s.len(),
    ensures
        lower_of(s).len() == s.len(),
        'A' <= s[k] <= 'Z' ==> lower_of(s)[k] as u32 == s[k] as u32 + 32,
        !('A' <= s[k] <= 'Z') ==> lower_of(s)[k] == s[k],
{
}

/// Replacing a text that occurs at its start puts the replacement there and goes on behind it; a
/// character at which it does not occur stays.
pub proof fn lemma_replace_goes_from_left_to_right(
    head: Seq<char>,
    pattern: Seq<char>,
    tail: Seq<char>,
    replacement: Seq<char>,
)
    requires
        pattern.len() > 0,
        forall|at: int|
            0 <= at < head.len() ==> !#[trigger] occurs_at(head + pattern + tail, pattern, at),
    ensures
        replace_of(head + pattern + tail, pattern, replacement) == head + replacement + replace_of(
            tail,
            pattern,
            replacement,
        ),
    decreases head.len(),
{
    let s = head + pattern + tail;
    if head.len() == 0 {
        assert(s.subrange(0, pattern.len() as int) =~= pattern);
        assert(s.skip(pattern.len() as int) =~= tail);
        assert(head + replacement + replace_of(tail, pattern, replacement) =~= replacement
            + replace_of(tail, pattern, replacement));
    } else {
        let rest = head.drop_first();
        assert(!occurs_at(s, pattern, 0));
        assert(s.drop_first() =~= rest + pattern + tail);
        assert forall|at: int| 0 <= at < rest.len() implies !#[trigger] occurs_at(
            rest + pattern + tail,
            pattern,
            at,
        ) by {
            assert(!occurs_at(s, pattern, at + 1));
            assert(s.subrange(at + 1, at + 1 + pattern.len()) =~= (rest + pattern + tail).subrange(
                at,
                at + pattern.len(),
            ));
        }
        lemma_replace_goes_from_left_to_right(rest, pattern, tail, replacement);
        assert(seq![s[0]] + (rest + replacement + replace_of(tail, pattern, replacement)) =~= head
            + replacement + replace_of(tail, pattern, replacement));
    }
}

/// A compacted text is the trimmed one where that fits, and otherwise starts like it and ends in
/// an ellipsis.
pub proof fn lemma_compact_starts_like_the_text(s: Seq<char>, max: nat)
    requires
        max >= 3,
    ensures
        trim_of(s).len() <= max ==> compact_of(s, max) == trim_of(s),
        trim_of(s).len() > max ==> compact_of(s, max).len() == max && compact_of(s, max).take(
            max - 3,
        ) == trim_of(s).take(max - 3) && compact_of(s, max).skip(max - 3) == seq!['.', '.', '.'],
{
    reveal_strlit("...");
    if trim_of(s).len() > max {
        assert(compact_of(s, max).take(max - 3) =~= trim_of(s).take(max - 3));
        assert(compact_of(s, max).skip(max - 3) =~= seq!['.', '.', '.']);
    }
}

/// Pieces that hold no separator are given back by cutting the text that they were joined to.
pub proof fn lemma_split_of_joined(pieces: Seq<Seq<char>>, c: char)
    requires
        pieces.len() > 0,
        forall|k: int| 0 <= k < pieces.len() ==> !(#[trigger] pieces[k]).contains(c),
    ensures
        split_of(join_of(pieces, seq![c]), c) == pieces,
    decreases pieces.len(),
{
    let s = join_of(pieces, seq![c]);
    let first = pieces[0];
    assert(!first.contains(c));
    lemma_cut(s, c);
    if pieces.len() == 1 {
        if cut(s, c) < s.len() {
            assert(s.contains(s[cut(s, c) as int]));
        }
        assert(split_of(s, c) =~= pieces);
    } else {
        let rest = pieces.drop_first();
        assert(pieces =~= seq![first] + rest);
        lemma_join_behind(first, rest, seq![c]);
        let k = cut(s, c) as int;
        if k < first.len() {
            assert(first[k] == s[k]);
            assert(first.contains(c));
        } else if k > first.len() {
            assert(s[first.len() as int] == c);
        }
        assert forall|j: int| 0 <= j < rest.len() implies !(#[trigger] rest[j]).contains(c) by {
            assert(rest[j] == pieces[j + 1]);
        }
        lemma_split_of_joined(rest, c);
        assert(s.take(k) =~= first);
        assert(s.skip(k + 1) =~= join_of(rest, seq![c]));
        assert(split_of(s, c) =~= pieces);
    }
}

/// Trimming takes away whatever white space was put around a text that has none at its ends.
pub proof fn lemma_trim_of_padded(before: Seq<char>, text: Seq<char>, after: Seq<char>)
    requires
        all_space(before),
        all_space(after),
        text.len() > 0,
        !is_space(text[0]),
        !is_space(text.last()),
    ensures
        trim_of(before + text + after) == text,
    decreases before.len() + after.len(),
{
    let s = before + text + after;
    if before.len() > 0 {
        assert(is_space(before[0]));
        let rest = before.drop_first();
        assert forall|k: int| 0 <= k < rest.len() implies is_space(#[trigger] rest[k]) by {
            assert(rest[k] == before[k + 1]);
        }
        lemma_trim_of_padded(rest, text, after);
        assert(s.drop_first() =~= rest + text + after);
    } else {
        assert(s =~= text + after);
        assert(trim_start_of(s) == s);
        lemma_trim_end_of_padded(text, after);
    }
}

proof fn lemma_trim_end_of_padded(text: Seq<char>, after: Seq<char>)
    requires
        all_space(after),
        text.len() > 0,
        !is_space(text.last()),
    ensures
        trim_end_of(text + after) == text,
    decreases after.len(),
{
    let s = text + after;
    if after.len() > 0 {
        assert(is_space(after[after.len() - 1]));
        let rest = after.drop_last();
        assert forall|k: int| 0 <= k < rest.len() implies is_space(#[trigger] rest[k]) by {
            assert(rest[k] == after[k]);
        }
        lemma_trim_end_of_padded(text, rest);
        assert(s.drop_last() =~= text + rest);
    } else {
        assert(s =~= text);
    }
}

/// The number that a text of hexadecimal digits spells.
pub open spec fn hex_number_of(digits: Seq<char>) -> int
    decreases digits.len(),
{
    if digits.len() == 0 {
        0
    } else {
        let c = digits.last();
        16 * hex_number_of(digits.drop_last()) + if '0' <= c <= '9' {
            c as u32 - '0' as u32
        } else {
            c as u32 - 'a' as u32 + 10
        }
    }
}

proof fn lemma_hex_spells(n: nat)
    ensures
        hex_number_of(hex_of(n)) == n,
        hex_of(n).len() > 0,
    decreases n,
{
    if n < 16 {
        assert(hex_of(n).drop_last() =~= Seq::empty());
        assert(hex_number_of(Seq::empty()) == 0);
    } else {
        lemma_hex_spells(n / 16);
        assert(hex_of(n).drop_last() =~= hex_of(n / 16));
    }
}

proof fn lemma_leading_zeros(count: nat, digits: Seq<char>)
    ensures
        hex_number_of(Seq::new(count, |i: int| '0') + digits) == hex_number_of(digits),
    decreases digits.len(), count,
{
    let zeros = Seq::new(count, |i: int| '0');
    let all = zeros + digits;
    if digits.len() > 0 {
        assert(all.drop_last() =~= zeros + digits.drop_last());
        lemma_leading_zeros(count, digits.drop_last());
    } else if count > 0 {
        let fewer = (count - 1) as nat;
        assert(all.drop_last() =~= Seq::new(fewer, |i: int| '0') + digits);
        lemma_leading_zeros(fewer, digits);
        assert(all.last() == '0');
    } else {
        assert(all =~= digits);
    }
}

/// A number is written so that its hexadecimal digits spell it, with as many digits as are asked
/// for at least.
pub proof fn lemma_hex_spells_the_number(n: u64, width: usize, r: String)
    requires
        call_ensures(padded_hex, (n, width), r),
    ensures
        hex_number_of(r@) == n,
        r@.len() >= width,
{
    lemma_hex_spells(n as nat);
    let d = hex_of(n as nat);
    if d.len() < width {
        lemma_leading_zeros((width - d.len()) as nat, d);
    }
}

/// A negative number is written as its amount behind a dash, any other as it is.
pub proof fn lemma_signs_are_written(n: i64, r: String)
    requires
        call_ensures(signed_decimal, (n,), r),
    ensures
        n >= 0 ==> number_of(r@) == n,
        n < 0 ==> r@.len() > 1 && r@[0] == '-' && number_of(r@.skip(1)) == -(n as int),
{
    reveal_strlit("-");
    if n >= 0 {
        lemma_decimal_spells_the_number(n as nat);
    } else {
        let amount = (-(n as int)) as nat;
        lemma_decimal_spells_the_number(amount);
        assert(r@.skip(1) =~= decimal_of(amount));
    }
}

/// What is trimmed of a character no longer ends in it, and only such characters are gone.
pub proof fn lemma_trim_takes_only_that_character(s: &str, c: char, end: &str, start: &str)
    requires
        call_ensures(trim_end_char, (s, c), end),
        call_ensures(trim_start_char, (s, c), start),
    ensures
        end@.is_prefix_of(s@),
        end@.len() > 0 ==> end@.last() != c,
        forall|k: int| end@.len() <= k < s@.len() ==> s@[k] == c,
        start@.is_suffix_of(s@),
        start@.len() > 0 ==> start@[0] != c,
        forall|k: int| 0 <= k < s@.len() - start@.len() ==> s@[k] == c,
{
    lemma_trim_end_char_takes(s@, c);
    lemma_trim_start_char_takes(s@, c);
}

proof fn lemma_trim_end_char_takes(s: Seq<char>, c: char)
    ensures
        trim_end_char_of(s, c).is_prefix_of(s),
        trim_end_char_of(s, c).len() > 0 ==> trim_end_char_of(s, c).last() != c,
        forall|k: int| trim_end_char_of(s, c).len() <= k < s.len() ==> s[k] == c,
    decreases s.len(),
{
    let t = trim_end_char_of(s, c);
    if s.len() > 0 && s.last() == c {
        let front = s.drop_last();
        lemma_trim_end_char_takes(front, c);
        assert(t =~= s.subrange(0, t.len() as int)) by {
            assert(t =~= front.subrange(0, t.len() as int));
        }
        assert forall|k: int| t.len() <= k < s.len() implies s[k] == c by {
            if k < front.len() {
                assert(front[k] == s[k]);
            }
        }
    } else {
        assert(t =~= s.subrange(0, t.len() as int));
    }
}

proof fn lemma_trim_start_char_takes(s: Seq<char>, c: char)
    ensures
        trim_start_char_of(s, c).is_suffix_of(s),
        trim_start_char_of(s, c).len() > 0 ==> trim_start_char_of(s, c)[0] != c,
        forall|k: int| 0 <= k < s.len() - trim_start_char_of(s, c).len() ==> s[k] == c,
    decreases s.len(),
{
    let t = trim_start_char_of(s, c);
    if s.len() > 0 && s[0] == c {
        let rest = s.drop_first();
        lemma_trim_start_char_takes(rest, c);
        assert(t =~= s.subrange(s.len() - t.len(), s.len() as int)) by {
            assert(t =~= rest.subrange(rest.len() - t.len(), rest.len() as int));
        }
        assert forall|k: int| 0 <= k < s.len() - t.len() implies s[k] == c by {
            if k > 0 {
                assert(rest[k - 1] == s[k]);
            }
        }
    } else {
        assert(t =~= s.subrange(s.len() - t.len(), s.len() as int));
    }
}

/// Small letters become capitals, and nothing else changes.
pub proof fn lemma_upper_changes_small_letters_only(s: &str, r: String, k: int)
    requires
        call_ensures(to_ascii_uppercase, (s,), r),
    ensures
        r@.len() == s@.len(),
        0 <= k < s@.len() && 'a' <= s@[k] <= 'z' ==> r@[k] as u32 + 32 == s@[k] as u32,
        0 <= k < s@.len() && !('a' <= s@[k] <= 'z') ==> r@[k] == s@[k],
{
}

/// Every occurrence of a character is swapped for the other, and nothing else changes.
pub proof fn lemma_every_character_is_swapped(s: &str, from: char, to: char, r: String, k: int)
    requires
        call_ensures(swap_char, (s, from, to), r),
    ensures
        r@.len() == s@.len(),
        0 <= k < s@.len() && s@[k] == from ==> r@[k] == to,
        0 <= k < s@.len() && s@[k] != from ==> r@[k] == s@[k],
{
}

} // verus!
