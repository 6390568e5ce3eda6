//! Secrets are taken out of what a server says before anybody sees it.
use vstd::prelude::*;

use crate::json::{Fields, Json, JsonNumber, JsonView};
use crate::text::{lemma_replace_absent, occurs_at, occurs_in, replace, replace_of, texts};

verus! {

/// What stands where a secret was.
pub open spec fn marker() -> Seq<char> {
    "<redacted>"@
}

/// The text with every secret, one after the other, replaced by the marker.
pub open spec fn redacted_text(value: Seq<char>, secrets: Seq<Seq<char>>) -> Seq<char>
    decreases secrets.len(),
{
    if secrets.len() == 0 {
        value
    } else {
        let before = redacted_text(value, secrets.drop_last());
        if secrets.last().len() == 0 {
            before
        } else {
            replace_of(before, secrets.last(), marker())
        }
    }
}

/// The value with every text in it redacted. The names of fields are left as they are.
pub open spec fn redacted(value: JsonView, secrets: Seq<Seq<char>>) -> JsonView
    decreases value,
{
    match value {
        JsonView::Text(text) => JsonView::Text(redacted_text(text, secrets)),
        JsonView::Array(items) => JsonView::Array(
            Seq::new(
                items.len(),
                |i: int|
                    if 0 <= i < items.len() {
                        redacted(items[i], secrets)
                    } else {
                        JsonView::Null
                    },
            ),
        ),
        JsonView::Object(fields) => JsonView::Object(
            Seq::new(
                fields.len(),
                |i: int|
                    if 0 <= i < fields.len() {
                        (fields[i].0, redacted(fields[i].1, secrets))
                    } else {
                        (Seq::empty(), JsonView::Null)
                    },
            ),
        ),
        _ => value,
    }
}

pub fn redact_text(value: &str, secrets: &Vec<String>) -> (r: String)
    ensures
        r@ == redacted_text(value@, texts(secrets@)),
{
    let mut out = value.to_owned();
    let n: usize = secrets.len();
    let mut i: usize = 0;
    let ghost all = texts(secrets@);
    while i < n
        invariant
            n == secrets@.len(),
            i <= n,
            all == texts(secrets@),
            out@ == redacted_text(value@, all.take(i as int)),
        decreases n - i,
    {
        assert(all.take(i + 1).drop_last() =~= all.take(i as int));
        assert(all.take(i + 1).last() == secrets@[i as int]@);
        if !secrets[i].as_str().is_empty() {
            out = replace(out.as_str(), secrets[i].as_str(), "<redacted>");
        }
        i += 1;
    }
    assert(all.take(n as int) =~= all);
    out
}

fn copy_number(number: &JsonNumber) -> (r: JsonNumber)
    ensures
        r@ == number@,
{
    match number {
        JsonNumber::Unsigned(n) => JsonNumber::Unsigned(*n),
        JsonNumber::Negative(n) => JsonNumber::Negative(*n),
        JsonNumber::Float(text) => JsonNumber::Float(text.clone()),
    }
}

pub fn redact_value(value: &Json, secrets: &Vec<String>) -> (r: Json)
    ensures
        r@ == redacted(value@, texts(secrets@)),
    decreases *value,
{
    match value {
        Json::Null => Json::Null,
        Json::Bool(b) => Json::Bool(*b),
        Json::Number(number) => Json::Number(copy_number(number)),
        Json::Text(text) => Json::Text(redact_text(text.as_str(), secrets)),
        Json::Array(items) => {
            let mut out: Vec<Json> = Vec::new();
            let n: usize = items.len();
            let mut i: usize = 0;
            while i < n
                invariant
                    *value == Json::Array(*items),
                    n == items@.len(),
                    i <= n,
                    out@.len() == i,
                    forall|k: int|
                        0 <= k < i ==> (#[trigger] out@[k])@ == redacted(
                            items@[k]@,
                            texts(secrets@),
                        ),
                decreases n - i,
            {
                assert(decreases_to!(*value => value->Array_0));
                assert(decreases_to!(value->Array_0 => value->Array_0[i as int]));
                out.push(redact_value(&items[i], secrets));
                i += 1;
            }
            let r = Json::Array(out);
            assert(r@->Array_0 =~= redacted(value@, texts(secrets@))->Array_0);
            r
        },
        Json::Object(fields) => {
            let mut out: Vec<(String, Json)> = Vec::new();
            let n: usize = fields.len();
            let mut i: usize = 0;
            while i < n
                invariant
                    *value == Json::Object(*fields),
                    n == fields@.len(),
                    i <= n,
                    out@.len() == i,
                    forall|k: int|
                        0 <= k < i ==> (#[trigger] out@[k]).0@ == fields@[k].0@ && out@[k].1@
                            == redacted(fields@[k].1@, texts(secrets@)),
                decreases n - i,
            {
                assert(decreases_to!(*value => value->Object_0));
                assert(decreases_to!(value->Object_0 => value->Object_0[i as int]));
                assert(decreases_to!(value->Object_0[i as int] => value->Object_0[i as int].1));
                out.push((fields[i].0.clone(), redact_value(&fields[i].1, secrets)));
                i += 1;
            }
            let r = Json::Object(out);
            assert(r@->Object_0 =~= redacted(value@, texts(secrets@))->Object_0);
            r
        },
    }
}

// ---------------------------------------------------------------------------
// What redaction achieves
// ---------------------------------------------------------------------------
/// The marker cannot be mistaken for a part of the text: neither does the text hold an angle
/// bracket, nor does it occur in the word that the marker is made of.
pub open spec fn stands_out(text: Seq<char>) -> bool {
    &&& text.len() > 0
    &&& !text.contains('<')
    &&& !text.contains('>')
    &&& !occurs_in("redacted"@, text)
}

/// A text without angle brackets that a redacted text starts with was there before.
proof fn lemma_prefix_survives(s: Seq<char>, secret: Seq<char>, text: Seq<char>)
    requires
        secret.len() > 0,
        !text.contains('<'),
        occurs_at(replace_of(s, secret, marker()), text, 0),
    ensures
        occurs_at(s, text, 0),
    decreases s.len(),
{
    reveal_strlit("<redacted>");
    let out = replace_of(s, secret, marker());
    if text.len() > 0 {
        assert(text[0] == out[0]) by {
            assert(out.subrange(0, text.len() as int)[0] == text[0]);
        }
        if s.len() > 0 && occurs_at(s, secret, 0) {
            assert(out[0] == '<');
            assert(text.contains('<'));
        } else if s.len() > 0 {
            let rest = text.skip(1);
            let tail = replace_of(s.skip(1), secret, marker());
            assert(out =~= seq![s[0]] + tail);
            assert forall|k: int| 0 <= k < rest.len() implies rest[k] != '<' by {
                assert(text[k + 1] != '<');
            }
            assert(occurs_at(tail, rest, 0)) by {
                assert(tail.subrange(0, rest.len() as int) =~= out.subrange(
                    0,
                    text.len() as int,
                ).skip(1));
            }
            lemma_prefix_survives(s.skip(1), secret, rest);
            assert(s.subrange(0, text.len() as int) =~= seq![s[0]] + s.skip(1).subrange(
                0,
                rest.len() as int,
            ));
            assert(text =~= seq![text[0]] + rest);
        }
    } else {
        assert(s.subrange(0, 0) =~= text);
    }
}

/// Replacing one secret brings no text about that stands out, and leaves none of the secret.
proof fn lemma_replacing_hides(s: Seq<char>, secret: Seq<char>, text: Seq<char>, at: int)
    requires
        secret.len() > 0,
        stands_out(text),
        occurs_at(replace_of(s, secret, marker()), text, at),
    ensures
        occurs_in(s, text),
        text != secret,
    decreases s.len(),
{
    reveal_strlit("<redacted>");
    reveal_strlit("redacted");
    let out = replace_of(s, secret, marker());
    let n = text.len() as int;
    let m = marker().len() as int;
    assert(out.subrange(at, at + n)[0] == text[0]);
    if s.len() < secret.len() {
        assert(occurs_in(s, text));
    } else if occurs_at(s, secret, 0) {
        let rest = s.skip(secret.len() as int);
        let tail = replace_of(rest, secret, marker());
        assert(out == marker() + tail);
        if at >= m {
            assert(tail.subrange(at - m, at - m + n) =~= out.subrange(at, at + n));
            lemma_replacing_hides(rest, secret, text, at - m);
            let q = choose|q: int| occurs_at(rest, text, q);
            assert(s.subrange(q + secret.len(), q + secret.len() + n) =~= rest.subrange(q, q + n));
            assert(occurs_at(s, text, q + secret.len()));
        } else if at == 0 {
            assert(out[0] == '<');
            assert(text.contains('<'));
        } else if at + n >= m {
            assert(out.subrange(at, at + n)[m - 1 - at] == out[m - 1]);
            assert(text[m - 1 - at] == '>');
        } else {
            assert("redacted"@.subrange(at - 1, at - 1 + n) =~= text) by {
                assert forall|k: int| 0 <= k < n implies "redacted"@[at - 1 + k] == text[k] by {
                    assert(out.subrange(at, at + n)[k] == out[at + k]);
                }
            }
            assert(occurs_at("redacted"@, text, at - 1));
        }
    } else {
        let rest = s.drop_first();
        let tail = replace_of(rest, secret, marker());
        assert(out == seq![s[0]] + tail);
        if at >= 1 {
            assert(tail.subrange(at - 1, at - 1 + n) =~= out.subrange(at, at + n));
            lemma_replacing_hides(rest, secret, text, at - 1);
            let q = choose|q: int| occurs_at(rest, text, q);
            assert(s.subrange(q + 1, q + 1 + n) =~= rest.subrange(q, q + n));
            assert(occurs_at(s, text, q + 1));
        } else {
            lemma_prefix_survives(s, secret, text);
        }
    }
}

/// A text that stands out is in a redacted text only if it was there before and is none of
/// the secrets.
pub proof fn lemma_redaction_hides_secrets(
    value: Seq<char>,
    secrets: Seq<Seq<char>>,
    text: Seq<char>,
)
    requires
        stands_out(text),
        occurs_in(redacted_text(value, secrets), text),
    ensures
        occurs_in(value, text),
        !secrets.contains(text),
    decreases secrets.len(),
{
    if secrets.len() > 0 {
        let before = redacted_text(value, secrets.drop_last());
        if secrets.last().len() > 0 {
            let at = choose|at: int| occurs_at(redacted_text(value, secrets), text, at);
            lemma_replacing_hides(before, secrets.last(), text, at);
        }
        lemma_redaction_hides_secrets(value, secrets.drop_last(), text);
        if secrets.contains(text) {
            let k = choose|k: int| 0 <= k < secrets.len() && secrets[k] == text;
            assert(k < secrets.len() - 1);
            assert(secrets.drop_last()[k] == text);
        }
    }
}

/// A text in which no secret occurs is left as it is.
pub proof fn lemma_redaction_leaves_the_rest(value: Seq<char>, secrets: Seq<Seq<char>>)
    requires
        forall|k: int| 0 <= k < secrets.len() ==> !occurs_in(value, #[trigger] secrets[k]),
    ensures
        redacted_text(value, secrets) == value,
    decreases secrets.len(),
{
    if secrets.len() > 0 {
        assert forall|k: int| 0 <= k < secrets.len() - 1 implies !occurs_in(
            value,
            #[trigger] secrets.drop_last()[k],
        ) by {
            assert(secrets.drop_last()[k] == secrets[k]);
        }
        lemma_redaction_leaves_the_rest(value, secrets.drop_last());
        lemma_replace_absent(value, secrets.last(), marker());
    }
}

/// Some text in the value holds this text.
pub open spec fn mentions(value: JsonView, text: Seq<char>) -> bool
    decreases value, 0nat,
{
    match value {
        JsonView::Text(held) => occurs_in(held, text),
        JsonView::Array(items) => item_mentions(items, items.len(), text),
        JsonView::Object(fields) => field_mentions(fields, fields.len(), text),
        _ => false,
    }
}

/// One of the first `n` items mentions the text.
pub open spec fn item_mentions(items: Seq<JsonView>, n: nat, text: Seq<char>) -> bool
    decreases items, n,
{
    &&& 0 < n <= items.len()
    &&& mentions(items[n - 1], text) || item_mentions(items, (n - 1) as nat, text)
}

/// One of the first `n` fields mentions the text.
pub open spec fn field_mentions(fields: Fields, n: nat, text: Seq<char>) -> bool
    decreases fields, n,
{
    &&& 0 < n <= fields.len()
    &&& mentions(fields[n - 1].1, text) || field_mentions(fields, (n - 1) as nat, text)
}

/// No text of a redacted value holds a secret that stands out.
pub proof fn lemma_redacted_value_mentions_no_secret(
    value: JsonView,
    secrets: Seq<Seq<char>>,
    text: Seq<char>,
)
    requires
        stands_out(text),
        secrets.contains(text),
    ensures
        !mentions(redacted(value, secrets), text),
    decreases value, 0nat,
{
    match value {
        JsonView::Text(held) => {
            if occurs_in(redacted_text(held, secrets), text) {
                lemma_redaction_hides_secrets(held, secrets, text);
            }
        },
        JsonView::Array(items) => {
            lemma_redacted_items(items, items.len(), redacted(value, secrets)->Array_0, secrets, text);
        },
        JsonView::Object(fields) => {
            lemma_redacted_fields(
                fields,
                fields.len(),
                redacted(value, secrets)->Object_0,
                secrets,
                text,
            );
        },
        _ => {},
    }
}

proof fn lemma_redacted_items(
    items: Seq<JsonView>,
    n: nat,
    after: Seq<JsonView>,
    secrets: Seq<Seq<char>>,
    text: Seq<char>,
)
    requires
        stands_out(text),
        secrets.contains(text),
        n <= items.len(),
        after.len() == items.len(),
        forall|i: int| 0 <= i < items.len() ==> #[trigger] after[i] == redacted(items[i], secrets),
    ensures
        !item_mentions(after, n, text),
    decreases items, n,
{
    if n > 0 {
        lemma_redacted_value_mentions_no_secret(items[n - 1], secrets, text);
        lemma_redacted_items(items, (n - 1) as nat, after, secrets, text);
        assert(after[n - 1] == redacted(items[n - 1], secrets));
    }
}

proof fn lemma_redacted_fields(
    fields: Fields,
    n: nat,
    after: Fields,
    secrets: Seq<Seq<char>>,
    text: Seq<char>,
)
    requires
        stands_out(text),
        secrets.contains(text),
        n <= fields.len(),
        after.len() == fields.len(),
        forall|i: int|
            0 <= i < fields.len() ==> (#[trigger] after[i]).1 == redacted(fields[i].1, secrets),
    ensures
        !field_mentions(after, n, text),
    decreases fields, n,
{
    if n > 0 {
        lemma_redacted_value_mentions_no_secret(fields[n - 1].1, secrets, text);
        lemma_redacted_fields(fields, (n - 1) as nat, after, secrets, text);
        assert(after[n - 1].1 == redacted(fields[n - 1].1, secrets));
    }
}

proof fn lemma_nothing_to_redact(value: Seq<char>, secrets: Seq<Seq<char>>)
    requires
        forall|k: int|
            0 <= k < secrets.len() && (#[trigger] secrets[k]).len() > 0 ==> !occurs_in(
                value,
                secrets[k],
            ),
    ensures
        redacted_text(value, secrets) == value,
    decreases secrets.len(),
{
    if secrets.len() > 0 {
        let rest = secrets.drop_last();
        assert forall|k: int| 0 <= k < rest.len() && (#[trigger] rest[k]).len() > 0 implies
            !occurs_in(value, rest[k]) by {
            assert(rest[k] == secrets[k]);
        }
        lemma_nothing_to_redact(value, rest);
        let last = secrets[secrets.len() - 1];
        if last.len() > 0 {
            lemma_replace_absent(value, last, marker());
        }
    }
}

/// A text that holds no secret is shown as it is.
pub proof fn lemma_texts_without_secrets_stay(value: &str, secrets: Vec<String>, r: String)
    requires
        call_ensures(redact_text, (value, &secrets), r),
        forall|k: int|
            0 <= k < secrets@.len() && (#[trigger] secrets@[k])@.len() > 0 ==> !occurs_in(
                value@,
                secrets@[k]@,
            ),
    ensures
        r@ == value@,
{
    let all = texts(secrets@);
    assert forall|k: int| 0 <= k < all.len() && (#[trigger] all[k]).len() > 0 implies !occurs_in(
        value@,
        all[k],
    ) by {
        assert(all[k] == secrets@[k]@);
    }
    lemma_nothing_to_redact(value@, all);
}

/// What stands around a secret stays: only the secret itself gives way to the marker.
pub proof fn lemma_surroundings_of_a_secret_stay(
    before: Seq<char>,
    secret: Seq<char>,
    after: Seq<char>,
)
    requires
        secret.len() > 0,
        forall|at: int|
            0 <= at < before.len() ==> !#[trigger] occurs_at(before + secret + after, secret, at),
        !occurs_in(after, secret),
    ensures
        redacted_text(before + secret + after, seq![secret]) == before + "<redacted>"@ + after,
{
    let secrets = seq![secret];
    assert(secrets.drop_last() =~= Seq::<Seq<char>>::empty());
    assert(secrets.last() == secret);
    assert(redacted_text(before + secret + after, secrets.drop_last()) == before + secret + after);
    crate::text::lemma_replace_goes_from_left_to_right(before, secret, after, marker());
    lemma_replace_absent(after, secret, marker());
}

/// A value keeps its shape: every text in it is redacted where it stands, and nothing else is
/// touched.
pub proof fn lemma_values_keep_their_shape(value: JsonView, secrets: Seq<Seq<char>>)
    ensures
        value matches JsonView::Text(text) ==> redacted(value, secrets) == JsonView::Text(
            redacted_text(text, secrets),
        ),
        value matches JsonView::Array(items) ==> (redacted(value, secrets) matches JsonView::Array(
            shown,
        ) && shown.len() == items.len() && forall|k: int|
            0 <= k < items.len() ==> #[trigger] shown[k] == redacted(items[k], secrets)),
        value matches JsonView::Object(fields) ==> (redacted(value, secrets) matches JsonView::Object(
            shown,
        ) && shown.len() == fields.len() && forall|k: int|
            0 <= k < fields.len() ==> (#[trigger] shown[k]).0 == fields[k].0 && shown[k].1
                == redacted(fields[k].1, secrets)),
        value is Null || value is Bool || value is Number ==> redacted(value, secrets) == value,
{
}

} // verus!
