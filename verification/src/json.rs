//! Reading single values out of the small JSON documents the mod keeps:
//! the settings file and the action file written by Better Mod Menu.
//!
//! The reader is deliberately lenient: it looks for the first `"key"`, then the
//! first `:` after it, skips white space and reads one value.
use vstd::prelude::*;
use crate::text::{after_first, after_first_exec, chars_of, push_char, starts_with, starts_with_exec, trim_start, trim_start_exec};

verus! {

/// `"key"`: the key as it appears in the document.
pub open spec fn quoted(key: Seq<char>) -> Seq<char> {
    seq!['"'] + key + seq!['"']
}

/// The text where the value of `key` begins, if the document has one:
/// after the first `"key"`, after the first `:` that follows it, without leading white space.
pub open spec fn value_text(source: Seq<char>, key: Seq<char>) -> Option<Seq<char>> {
    match after_first(source, quoted(key)) {
        Some(rest) => match after_first(rest, seq![':']) {
            Some(value) => Some(trim_start(value)),
            None => None,
        },
        None => None,
    }
}

pub open spec fn json_bool(source: Seq<char>, key: Seq<char>) -> Option<bool> {
    match value_text(source, key) {
        Some(v) => if starts_with(v, seq!['t', 'r', 'u', 'e']) {
            Some(true)
        } else if starts_with(v, seq!['f', 'a', 'l', 's', 'e']) {
            Some(false)
        } else {
            None
        },
        None => None,
    }
}

pub open spec fn is_ascii_digit(c: char) -> bool {
    '0' <= c <= '9'
}

/// The longest prefix of `s` made of ASCII digits.
pub open spec fn leading_digits(s: Seq<char>) -> Seq<char>
    decreases s.len(),
{
    if s.len() > 0 && is_ascii_digit(s[0]) {
        seq![s[0]] + leading_digits(s.drop_first())
    } else {
        seq![]
    }
}

/// The number that a string of decimal digits denotes.
pub open spec fn decimal_value(digits: Seq<char>) -> nat
    decreases digits.len(),
{
    if digits.len() == 0 {
        0
    } else {
        decimal_value(digits.drop_last()) * 10 + ((digits.last() as nat) - ('0' as nat)) as nat
    }
}

pub open spec fn json_u8(source: Seq<char>, key: Seq<char>) -> Option<u8> {
    match value_text(source, key) {
        Some(v) => {
            let digits = leading_digits(v);
            if digits.len() > 0 && decimal_value(digits) <= 255 {
                Some(decimal_value(digits) as u8)
            } else {
                None
            }
        },
        None => None,
    }
}

/// Reads a string body up to its closing quote; a backslash takes the next
/// character literally. `None` when the closing quote is missing.
pub open spec fn string_body(s: Seq<char>, escaped: bool, out: Seq<char>) -> Option<Seq<char>>
    decreases s.len(),
{
    if s.len() == 0 {
        None
    } else if escaped {
        string_body(s.drop_first(), false, out.push(s[0]))
    } else if s[0] == '\\' {
        string_body(s.drop_first(), true, out)
    } else if s[0] == '"' {
        Some(out)
    } else {
        string_body(s.drop_first(), false, out.push(s[0]))
    }
}

pub open spec fn json_string(source: Seq<char>, key: Seq<char>) -> Option<Seq<char>> {
    match value_text(source, key) {
        Some(v) => if v.len() > 0 && v[0] == '"' {
            string_body(v.drop_first(), false, seq![])
        } else {
            None
        },
        None => None,
    }
}

fn quoted_key(key: &str) -> (q: Vec<char>)
    ensures
        q@ == quoted(key@),
{
    let mut q: Vec<char> = Vec::new();
    q.push('"');
    let mut k = chars_of(key);
    q.append(&mut k);
    q.push('"');
    assert(q@ =~= quoted(key@));
    q
}

fn value_text_exec(source: &str, key: &str) -> (r: Option<Vec<char>>)
    ensures
        match r {
            Some(v) => value_text(source@, key@) == Some(v@),
            None => value_text(source@, key@) is None,
        },
{
    let s = chars_of(source);
    let q = quoted_key(key);
    let rest = match after_first_exec(&s, &q) {
        Some(rest) => rest,
        None => return None,
    };
    let colon = vec![':'];
    assert(colon@ =~= seq![':']);
    match after_first_exec(&rest, &colon) {
        Some(value) => Some(trim_start_exec(&value)),
        None => None,
    }
}

/// The boolean stored under `key`: `true` or `false` at the start of its value.
pub fn read_json_bool(source: &str, key: &str) -> (r: Option<bool>)
    ensures
        r == json_bool(source@, key@),
{
    let v = match value_text_exec(source, key) {
        Some(v) => v,
        None => return None,
    };
    let t = vec!['t', 'r', 'u', 'e'];
    let f = vec!['f', 'a', 'l', 's', 'e'];
    assert(t@ =~= seq!['t', 'r', 'u', 'e']);
    assert(f@ =~= seq!['f', 'a', 'l', 's', 'e']);
    if starts_with_exec(&v, &t) {
        Some(true)
    } else if starts_with_exec(&v, &f) {
        Some(false)
    } else {
        None
    }
}

pub(crate) proof fn lemma_leading_digits_step(s: Seq<char>, i: int)
    requires
        0 <= i <= s.len(),
        forall|k: int| 0 <= k < i ==> is_ascii_digit(#[trigger] s[k]),
    ensures
        leading_digits(s) == s.take(i) + leading_digits(s.skip(i)),
    decreases i,
{
    if i == 0 {
        assert(s.skip(0) =~= s);
        assert(s.take(0) + leading_digits(s.skip(0)) =~= leading_digits(s));
    } else {
        lemma_leading_digits_step(s.drop_first(), i - 1);
        assert(s.drop_first().take(i - 1) =~= s.take(i).drop_first());
        assert(s.drop_first().skip(i - 1) =~= s.skip(i));
        assert(seq![s[0]] + s.take(i).drop_first() =~= s.take(i));
        assert(seq![s[0]] + (s.take(i).drop_first() + leading_digits(s.skip(i))) =~= s.take(i)
            + leading_digits(s.skip(i)));
    }
}

/// The small number stored under `key`: the digits at the start of its value,
/// when there is at least one and they denote at most 255.
pub fn read_json_u8(source: &str, key: &str) -> (r: Option<u8>)
    ensures
        r == json_u8(source@, key@),
{
    let v = match value_text_exec(source, key) {
        Some(v) => v,
        None => return None,
    };
    // value of the digits read so far, or 256 once it is known to exceed 255
    let mut value: u32 = 0;
    let mut i: usize = 0;
    while i < v.len() && '0' <= v[i] && v[i] <= '9'
        invariant
            i <= v.len(),
            forall|k: int| 0 <= k < i ==> is_ascii_digit(#[trigger] v@[k]),
            value <= 256,
            value == (if decimal_value(v@.take(i as int)) <= 255 {
                decimal_value(v@.take(i as int))
            } else {
                256
            }),
        decreases v.len() - i,
    {
        let d = (v[i] as u32) - ('0' as u32);
        assert(v@.take(i + 1).drop_last() =~= v@.take(i as int));
        if value <= 255 {
            let next = value * 10 + d;
            value = if next <= 255 { next } else { 256 };
        }
        i = i + 1;
    }
    proof {
        lemma_leading_digits_step(v@, i as int);
        if i < v.len() {
            assert(leading_digits(v@.skip(i as int)) =~= seq![]);
        } else {
            assert(v@.skip(i as int) =~= seq![]);
        }
        assert(leading_digits(v@) =~= v@.take(i as int));
    }
    if i > 0 && value <= 255 {
        Some(value as u8)
    } else {
        None
    }
}

/// The string stored under `key`: a quoted value, with backslash escapes taken literally.
pub fn read_json_string(source: &str, key: &str) -> (r: Option<String>)
    ensures
        match r {
            Some(s) => json_string(source@, key@) == Some(s@),
            None => json_string(source@, key@) is None,
        },
{
    let v = match value_text_exec(source, key) {
        Some(v) => v,
        None => return None,
    };
    if v.len() == 0 || v[0] != '"' {
        return None;
    }
    let ghost body = v@.drop_first();
    assert(v@.skip(1) =~= body);
    let mut escaped = false;
    let mut output = String::new();
    let mut i: usize = 1;
    while i < v.len()
        invariant
            1 <= i <= v.len(),
            body == v@.drop_first(),
            value_text(source@, key@) == Some(v@),
            v@.len() > 0 && v@[0] == '"',
            string_body(body, false, seq![]) == string_body(v@.skip(i as int), escaped, output@),
        decreases v.len() - i,
    {
        let c = v[i];
        assert(v@.skip(i as int).drop_first() =~= v@.skip(i + 1));
        if escaped {
            push_char(&mut output, c);
            escaped = false;
        } else if c == '\\' {
            escaped = true;
        } else if c == '"' {
            assert(v@.skip(i as int)[0] == c);
            assert(v@.skip(i as int).len() > 0);
            assert(string_body(v@.skip(i as int), false, output@) == Some(output@));
            return Some(output);
        } else {
            push_char(&mut output, c);
        }
        i = i + 1;
    }
    assert(v@.skip(i as int) =~= seq![]);
    None
}

} // verus!
