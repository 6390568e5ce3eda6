//! The text of a skill, and the warnings that finding skills gives rise to.
use vstd::prelude::*;
use vstd::string::StringExecFns;

use crate::text::{
    char_byte_len, char_is_control, cut, find_char, has_control, is_control, join, join_of,
    lemma_utf8_len_push, lines, lines_of, lower_of, str_eq, texts, to_ascii_lowercase, to_chars,
    trim, trim_end_char, trim_end_char_of, trim_of, trim_start_char, trim_start_char_of, utf8_len,
};

verus! {

pub const MAX_DISCOVERY_WARNINGS: usize = 32;

pub const MAX_DISCOVERY_WARNING_BYTES: usize = 1024;

// ---------------------------------------------------------------------------
// Documents
// ---------------------------------------------------------------------------
/// A skill's text: what its header says, and the instructions behind the header.
#[derive(Clone, Debug, PartialEq, Eq)]
pub struct SkillText {
    pub name: Option<String>,
    pub description: Option<String>,
    pub instructions: String,
}

pub struct SkillTextView {
    pub name: Option<Seq<char>>,
    pub description: Option<Seq<char>>,
    pub instructions: Seq<char>,
}

impl View for SkillText {
    type V = SkillTextView;

    open spec fn view(&self) -> SkillTextView {
        SkillTextView {
            name: match self.name {
                Some(text) => Some(text@),
                None => None,
            },
            description: match self.description {
                Some(text) => Some(text@),
                None => None,
            },
            instructions: self.instructions@,
        }
    }
}

/// The line opens or closes a header.
pub open spec fn is_fence(line: Seq<char>) -> bool {
    trim_of(line) == "---"@
}

/// The first fence from the `i`th line on.
pub open spec fn fence_from(lines: Seq<Seq<char>>, i: int) -> Option<int>
    decreases lines.len() - i,
{
    if i >= lines.len() {
        None
    } else if is_fence(lines[i]) {
        Some(i)
    } else {
        fence_from(lines, i + 1)
    }
}

/// The value of a header line, without white space and quotes around it.
pub open spec fn header_value(value: Seq<char>) -> Seq<char> {
    let plain = trim_of(value);
    let unquoted = trim_end_char_of(trim_start_char_of(plain, '"'), '"');
    trim_end_char_of(trim_start_char_of(unquoted, '\''), '\'')
}

/// What header lines say so far: a name and a description.
pub type HeaderView = (Option<Seq<char>>, Option<Seq<char>>);

/// What one more header line says. Lines that name nothing of interest say nothing.
pub open spec fn header_with(line: Seq<char>, header: HeaderView) -> HeaderView {
    let at = cut(line, ':');
    if at >= line.len() {
        header
    } else {
        let key = lower_of(trim_of(line.take(at as int)));
        let value = header_value(line.skip(at as int + 1));
        if key == "name"@ {
            (Some(value), header.1)
        } else if key == "description"@ {
            (header.0, Some(value))
        } else {
            header
        }
    }
}

/// What the lines from the `i`th up to the `end`th say.
pub open spec fn header_of(lines: Seq<Seq<char>>, i: int, end: int, header: HeaderView) -> HeaderView
    decreases end - i,
{
    if i >= end {
        header
    } else {
        header_of(lines, i + 1, end, header_with(lines[i], header))
    }
}

/// A text whose first line is a fence has a header up to the next fence; any other text is all
/// instructions.
pub open spec fn document_of(content: Seq<char>) -> SkillTextView {
    let all = lines_of(content);
    let whole = SkillTextView { name: None, description: None, instructions: content };
    if all.len() == 0 || !is_fence(all[0]) {
        whole
    } else {
        match fence_from(all, 1) {
            None => whole,
            Some(end) => {
                let header = header_of(all, 1, end, (None, None));
                SkillTextView {
                    name: header.0,
                    description: header.1,
                    instructions: join_of(all.skip(end + 1), "\n"@),
                }
            },
        }
    }
}

fn fence(line: &str) -> (r: bool)
    ensures
        r == is_fence(line@),
{
    str_eq(trim(line), "---")
}

fn unquote(value: &str) -> (r: String)
    ensures
        r@ == header_value(value@),
{
    let plain = trim(value);
    let unquoted = trim_end_char(trim_start_char(plain, '"'), '"');
    trim_end_char(trim_start_char(unquoted, '\''), '\'').to_owned()
}

pub fn split_document(content: &str) -> (r: SkillText)
    ensures
        r@ == document_of(content@),
{
    let all = lines(content);
    let ghost view = texts(all@);
    let n: usize = all.len();
    if n == 0 || !fence(all[0].as_str()) {
        assert(n > 0 ==> view[0] == all@[0]@);
        return SkillText { name: None, description: None, instructions: content.to_owned() };
    }
    assert(view[0] == all@[0]@);
    let mut end: usize = 1;
    while end < n && !fence(all[end].as_str())
        invariant
            n == all@.len(),
            view == texts(all@),
            1 <= end <= n,
            fence_from(view, 1) == fence_from(view, end as int),
        decreases n - end,
    {
        assert(view[end as int] == all@[end as int]@);
        end += 1;
    }
    if end == n {
        return SkillText { name: None, description: None, instructions: content.to_owned() };
    }
    assert(view[end as int] == all@[end as int]@);
    let mut name: Option<String> = None;
    let mut description: Option<String> = None;
    let mut i: usize = 1;
    while i < end
        invariant
            n == all@.len(),
            view == texts(all@),
            1 <= i <= end < n,
            header_of(view, 1, end as int, (None, None)) == header_of(
                view,
                i as int,
                end as int,
                (
                    match name {
                        Some(text) => Some(text@),
                        None => None,
                    },
                    match description {
                        Some(text) => Some(text@),
                        None => None,
                    },
                ),
            ),
        decreases end - i,
    {
        assert(view[i as int] == all@[i as int]@);
        let line = all[i].as_str();
        let chars = to_chars(line);
        assert(chars@.skip(0) =~= chars@);
        let at = find_char(&chars, 0, ':');
        if at < chars.len() {
            let before = line.substring_char(0, at);
            let after = line.substring_char(at + 1, chars.len());
            assert(before@ =~= line@.take(at as int));
            assert(after@ =~= line@.skip(at + 1));
            let key = to_ascii_lowercase(trim(before));
            if str_eq(key.as_str(), "name") {
                name = Some(unquote(after));
            } else if str_eq(key.as_str(), "description") {
                description = Some(unquote(after));
            }
        }
        i += 1;
    }
    let mut rest: Vec<String> = Vec::new();
    let mut k: usize = end + 1;
    assert(texts(rest@) =~= view.subrange(end + 1, k as int));
    while k < n
        invariant
            n == all@.len(),
            view == texts(all@),
            end + 1 <= k <= n,
            texts(rest@) == view.subrange(end + 1, k as int),
        decreases n - k,
    {
        let ghost before = rest@;
        rest.push(all[k].clone());
        assert(texts(rest@) =~= texts(before).push(all@[k as int]@));
        assert(view.subrange(end + 1, k + 1) =~= view.subrange(end + 1, k as int).push(
            all@[k as int]@,
        ));
        k += 1;
    }
    assert(view.subrange(end + 1, n as int) =~= view.skip(end + 1));
    SkillText { name, description, instructions: join(rest.as_slice(), "\n") }
}

// ---------------------------------------------------------------------------
// Warnings
// ---------------------------------------------------------------------------
/// The text with a space for every control character.
pub open spec fn printable(s: Seq<char>) -> Seq<char> {
    Seq::new(
        s.len(),
        |k: int|
            if is_control(s[k]) {
                ' '
            } else {
                s[k]
            },
    )
}

/// The longest part from the start of a text that takes no more than `maximum` bytes.
pub open spec fn byte_prefix(s: Seq<char>, maximum: nat) -> Seq<char>
    decreases s.len(),
{
    if s.len() == 0 || utf8_len(s) <= maximum {
        s
    } else {
        byte_prefix(s.drop_last(), maximum)
    }
}

/// A warning as it is shown.
pub open spec fn bounded_warning(s: Seq<char>) -> Seq<char> {
    byte_prefix(printable(s), MAX_DISCOVERY_WARNING_BYTES as nat)
}

/// The warnings as they are shown.
pub open spec fn bounded_warnings(all: Seq<Seq<char>>) -> Seq<Seq<char>> {
    let kept = if all.len() > MAX_DISCOVERY_WARNINGS {
        MAX_DISCOVERY_WARNINGS as nat
    } else {
        all.len()
    };
    Seq::new(kept, |k: int| bounded_warning(all[k]))
}

proof fn lemma_empty_utf8()
    ensures
        utf8_len(Seq::<char>::empty()) == 0,
{
}

/// A prefix of a text that fits, and is followed by a character that no longer does, is the
/// longest one.
proof fn lemma_byte_prefix(s: Seq<char>, n: int, maximum: nat)
    requires
        0 <= n <= s.len(),
        utf8_len(s.take(n)) <= maximum,
        n < s.len() ==> utf8_len(s.take(n + 1)) > maximum,
    ensures
        byte_prefix(s, maximum) == s.take(n),
    decreases s.len(),
{
    if n == s.len() {
        assert(s.take(n) =~= s);
    } else {
        lemma_longer_takes_more(s, n + 1, s.len() as int);
        assert(s.take(s.len() as int) =~= s);
        let shorter = s.drop_last();
        assert(shorter.take(n) =~= s.take(n));
        if n < shorter.len() {
            assert(shorter.take(n + 1) =~= s.take(n + 1));
        }
        lemma_byte_prefix(shorter, n, maximum);
    }
}

proof fn lemma_longer_takes_more(s: Seq<char>, a: int, b: int)
    requires
        0 <= a <= b <= s.len(),
    ensures
        utf8_len(s.take(a)) <= utf8_len(s.take(b)),
    decreases b - a,
{
    if a < b {
        lemma_longer_takes_more(s, a, b - 1);
        assert(s.take(b) =~= s.take(b - 1).push(s[b - 1]));
        lemma_utf8_len_push(s.take(b - 1), s[b - 1]);
    }
}

fn bound_warning(warning: &str) -> (r: String)
    ensures
        r@ == bounded_warning(warning@),
{
    let chars = to_chars(warning);
    let ghost all = printable(warning@);
    let mut out = String::new();
    let mut length: usize = 0;
    let n: usize = chars.len();
    let mut i: usize = 0;
    proof {
        lemma_empty_utf8();
        assert(all.take(0) =~= Seq::<char>::empty());
    }
    while i < n
        invariant
            chars@ == warning@,
            n == chars@.len(),
            all == printable(warning@),
            i <= n,
            out@ == all.take(i as int),
            length == utf8_len(all.take(i as int)),
            length <= MAX_DISCOVERY_WARNING_BYTES,
        decreases n - i,
    {
        let c = if char_is_control(chars[i]) {
            ' '
        } else {
            chars[i]
        };
        proof {
            assert(all.take(i + 1) =~= all.take(i as int).push(c));
            lemma_utf8_len_push(all.take(i as int), c);
        }
        let more: usize = char_byte_len(c);
        if length + more > MAX_DISCOVERY_WARNING_BYTES {
            proof {
                lemma_byte_prefix(all, i as int, MAX_DISCOVERY_WARNING_BYTES as nat);
            }
            return out;
        }
        out.push(c);
        length += more;
        i += 1;
    }
    proof {
        lemma_byte_prefix(all, n as int, MAX_DISCOVERY_WARNING_BYTES as nat);
    }
    out
}

pub fn bound_warnings(warnings: &Vec<String>) -> (r: Vec<String>)
    ensures
        texts(r@) == bounded_warnings(texts(warnings@)),
{
    let n: usize = if warnings.len() > MAX_DISCOVERY_WARNINGS {
        MAX_DISCOVERY_WARNINGS
    } else {
        warnings.len()
    };
    let mut out: Vec<String> = Vec::new();
    let mut i: usize = 0;
    while i < n
        invariant
            n <= warnings@.len(),
            i <= n,
            out@.len() == i,
            forall|k: int| 0 <= k < i ==> (#[trigger] out@[k])@ == bounded_warning(warnings@[k]@),
        decreases n - i,
    {
        out.push(bound_warning(warnings[i].as_str()));
        i += 1;
    }
    assert(texts(out@) =~= bounded_warnings(texts(warnings@)));
    out
}

/// What is shown is short, of few warnings, and free of control characters.
pub proof fn lemma_warnings_are_bounded(all: Seq<Seq<char>>, k: int)
    requires
        0 <= k < bounded_warnings(all).len(),
    ensures
        bounded_warnings(all).len() <= MAX_DISCOVERY_WARNINGS,
        utf8_len(bounded_warnings(all)[k]) <= MAX_DISCOVERY_WARNING_BYTES,
        !has_control(bounded_warnings(all)[k]),
{
    lemma_prefix_is_bounded(printable(all[k]), MAX_DISCOVERY_WARNING_BYTES as nat);
}

proof fn lemma_prefix_is_bounded(s: Seq<char>, maximum: nat)
    requires
        forall|k: int| 0 <= k < s.len() ==> !is_control(#[trigger] s[k]),
    ensures
        utf8_len(byte_prefix(s, maximum)) <= maximum,
        !has_control(byte_prefix(s, maximum)),
    decreases s.len(),
{
    if s.len() == 0 {
        lemma_empty_utf8();
        assert(s =~= Seq::<char>::empty());
    } else if utf8_len(s) > maximum {
        lemma_prefix_is_bounded(s.drop_last(), maximum);
    }
}

} // verus!
