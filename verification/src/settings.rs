//! The mod's settings: their defaults, the settings document it writes, and how
//! a document read back (or found at a legacy location) becomes settings again.
use vstd::prelude::*;
use crate::json::{
    decimal_value, is_ascii_digit, json_bool, json_u8, leading_digits, quoted, read_json_bool,
    read_json_u8, value_text,
};
use crate::text::{
    after_first, find, is_white_space, lemma_find_from, occurs_at, string_of, trim_start,
};

verus! {

/// Retention used until the player picks another one.
pub const DEFAULT_RETENTION_DAYS: u8 = 7;

/// The retention periods, in days, that the settings panel offers.
pub open spec fn is_retention_choice(days: u8) -> bool {
    days == 3 || days == 7 || days == 14 || days == 30
}

#[derive(Clone, Copy, PartialEq, Eq, Debug)]
pub struct Settings {
    pub skip_disclaimer: bool,
    pub auto_continue: bool,
    pub auto_load_anyway: bool,
    pub backup_retention_days: u8,
}

/// The shipped defaults: only the disclaimer skip is on; retention is a week.
pub open spec fn default_settings() -> Settings {
    Settings {
        skip_disclaimer: true,
        auto_continue: false,
        auto_load_anyway: false,
        backup_retention_days: 7,
    }
}

impl Default for Settings {
    fn default() -> (s: Self)
        ensures
            s == default_settings(),
    {
        Settings {
            skip_disclaimer: true,
            auto_continue: false,
            auto_load_anyway: false,
            backup_retention_days: DEFAULT_RETENTION_DAYS,
        }
    }
}

/// The on/off settings that the panel toggles.
#[derive(Clone, Copy, PartialEq, Eq, Debug)]
pub enum SettingKey {
    SkipDisclaimer,
    AutoContinue,
    AutoLoadAnyway,
}

/// `settings` with the flag named by `key` set to `value`.
pub open spec fn with_flag(settings: Settings, key: SettingKey, value: bool) -> Settings {
    match key {
        SettingKey::SkipDisclaimer => Settings { skip_disclaimer: value, ..settings },
        SettingKey::AutoContinue => Settings { auto_continue: value, ..settings },
        SettingKey::AutoLoadAnyway => Settings { auto_load_anyway: value, ..settings },
    }
}

impl SettingKey {
    /// Sets the flag this key names.
    pub fn store(self, settings: &mut Settings, value: bool)
        ensures
            *final(settings) == with_flag(*old(settings), self, value),
    {
        match self {
            SettingKey::SkipDisclaimer => settings.skip_disclaimer = value,
            SettingKey::AutoContinue => settings.auto_continue = value,
            SettingKey::AutoLoadAnyway => settings.auto_load_anyway = value,
        }
    }
}

pub open spec fn key_skip_disclaimer() -> Seq<char> {
    seq!['s', 'k', 'i', 'p', '_', 'd', 'i', 's', 'c', 'l', 'a', 'i', 'm', 'e', 'r']
}

pub open spec fn key_auto_continue() -> Seq<char> {
    seq!['a', 'u', 't', 'o', '_', 'c', 'o', 'n', 't', 'i', 'n', 'u', 'e']
}

pub open spec fn key_auto_load_anyway() -> Seq<char> {
    seq!['a', 'u', 't', 'o', '_', 'l', 'o', 'a', 'd', '_', 'a', 'n', 'y', 'w', 'a', 'y']
}

pub open spec fn key_backup_retention_days() -> Seq<char> {
    seq![
        'b', 'a', 'c', 'k', 'u', 'p', '_', 'r', 'e', 't', 'e', 'n', 't', 'i', 'o', 'n', '_', 'd', 'a',
        'y', 's',
    ]
}

/// What loading a settings document yields: the settings, and whether the
/// document should be written back (it came from a legacy location, or its
/// retention was missing or not one of the offered choices).
#[derive(Clone, Copy, PartialEq, Eq, Debug)]
pub struct LoadedSettings {
    pub settings: Settings,
    pub should_persist: bool,
}

pub open spec fn unwrap_or<T>(o: Option<T>, d: T) -> T {
    match o {
        Some(v) => v,
        None => d,
    }
}

/// The retention read from a document, when it is one of the offered choices.
pub open spec fn valid_retention(source: Seq<char>) -> Option<u8> {
    match json_u8(source, key_backup_retention_days()) {
        Some(d) => if is_retention_choice(d) {
            Some(d)
        } else {
            None
        },
        None => None,
    }
}

/// Settings read from a document; each value the document lacks keeps its default.
pub open spec fn settings_from(source: Seq<char>) -> Settings {
    Settings {
        skip_disclaimer: unwrap_or(json_bool(source, key_skip_disclaimer()), true),
        auto_continue: unwrap_or(json_bool(source, key_auto_continue()), false),
        auto_load_anyway: unwrap_or(json_bool(source, key_auto_load_anyway()), false),
        backup_retention_days: unwrap_or(valid_retention(source), 7u8),
    }
}

/// Law: each setting is read from its own key, whatever the others hold: a
/// flag takes the document's boolean under its key, or its default when there
/// is none; the retention takes the document's number when it is one of the
/// choices, or 7 days.
pub proof fn lemma_settings_read_by_key(source: Seq<char>)
    ensures
        settings_from(source).skip_disclaimer == unwrap_or(json_bool(source, "skip_disclaimer"@), true),
        settings_from(source).auto_continue == unwrap_or(json_bool(source, "auto_continue"@), false),
        settings_from(source).auto_load_anyway == unwrap_or(json_bool(source, "auto_load_anyway"@), false),
        settings_from(source).backup_retention_days == match json_u8(source, "backup_retention_days"@) {
            Some(days) => if days == 3 || days == 7 || days == 14 || days == 30 {
                days
            } else {
                7u8
            },
            None => 7u8,
        },
{
    reveal_strlit("skip_disclaimer");
    reveal_strlit("auto_continue");
    reveal_strlit("auto_load_anyway");
    reveal_strlit("backup_retention_days");
    assert(key_skip_disclaimer() =~= "skip_disclaimer"@);
    assert(key_auto_continue() =~= "auto_continue"@);
    assert(key_auto_load_anyway() =~= "auto_load_anyway"@);
    assert(key_backup_retention_days() =~= "backup_retention_days"@);
}

/// Reads settings from a document. `from_legacy_location` says that the
/// document was found at an older location and so must be written to the current one.
pub fn settings_from_source(source: &str, from_legacy_location: bool) -> (r: LoadedSettings)
    ensures
        r.settings == settings_from(source@),
        r.settings.auto_load_anyway == unwrap_or(json_bool(source@, "auto_load_anyway"@), false),
        r.should_persist == (from_legacy_location || valid_retention(source@) is None),
        is_retention_choice(r.settings.backup_retention_days),
{
    let mut settings = Settings::default();
    let mut should_persist = from_legacy_location;
    proof {
        reveal_strlit("skip_disclaimer");
        reveal_strlit("auto_continue");
        reveal_strlit("auto_load_anyway");
        reveal_strlit("backup_retention_days");
        assert("skip_disclaimer"@ =~= key_skip_disclaimer());
        assert("auto_continue"@ =~= key_auto_continue());
        assert("auto_load_anyway"@ =~= key_auto_load_anyway());
        assert("backup_retention_days"@ =~= key_backup_retention_days());
    }
    if let Some(v) = read_json_bool(source, "skip_disclaimer") {
        settings.skip_disclaimer = v;
    }
    if let Some(v) = read_json_bool(source, "auto_continue") {
        settings.auto_continue = v;
    }
    if let Some(v) = read_json_bool(source, "auto_load_anyway") {
        settings.auto_load_anyway = v;
    }
    match read_json_u8(source, "backup_retention_days") {
        Some(days) if days == 3 || days == 7 || days == 14 || days == 30 => {
            settings.backup_retention_days = days;
        },
        _ => {
            should_persist = true;
        },
    }
    LoadedSettings { settings, should_persist }
}


pub open spec fn digit_char(d: nat) -> char {
    (('0' as nat) + d) as char
}

/// Decimal digits of `n`, without leading zeros, as `u8`'s `Display` writes them.
pub open spec fn decimal_text(n: nat) -> Seq<char>
    decreases n,
{
    if n < 10 {
        seq![digit_char(n)]
    } else {
        decimal_text(n / 10).push(digit_char(n % 10))
    }
}

/// `true` or `false`, as `bool`'s `Display` writes them.
pub open spec fn bool_text(b: bool) -> Seq<char> {
    if b {
        seq!['t', 'r', 'u', 'e']
    } else {
        seq!['f', 'a', 'l', 's', 'e']
    }
}

/// One `"key": value` member of the settings document.
pub open spec fn member(key: Seq<char>, value: Seq<char>) -> Seq<char> {
    quoted(key) + (seq![':', ' '] + value)
}

pub open spec fn doc_open() -> Seq<char> {
    seq!['{', '\n', ' ', ' ']
}

pub open spec fn doc_separator() -> Seq<char> {
    seq![',', '\n', ' ', ' ']
}

pub open spec fn doc_close() -> Seq<char> {
    seq!['\n', '}', '\n']
}

/// The settings document that `settings_json` writes.
pub open spec fn settings_text(s: Settings) -> Seq<char> {
    doc_open() + (member(key_skip_disclaimer(), bool_text(s.skip_disclaimer)) + (doc_separator()
        + (member(key_auto_continue(), bool_text(s.auto_continue)) + (doc_separator() + (member(
        key_auto_load_anyway(),
        bool_text(s.auto_load_anyway),
    ) + (doc_separator() + (member(
        key_backup_retention_days(),
        decimal_text(s.backup_retention_days as nat),
    ) + doc_close())))))))
}

fn decimal_chars(n: u8) -> (v: Vec<char>)
    ensures
        v@ == decimal_text(n as nat),
{
    let ghost m = n as nat;
    if n < 10 {
        let v = vec![(('0' as u8) + n) as char];
        assert(v@ =~= decimal_text(m));
        v
    } else if n < 100 {
        let v = vec![(('0' as u8) + n / 10) as char, (('0' as u8) + n % 10) as char];
        assert(decimal_text(m / 10) =~= seq![digit_char(m / 10)]);
        assert(v@ =~= decimal_text(m));
        v
    } else {
        let v = vec![
            (('0' as u8) + n / 100) as char,
            (('0' as u8) + (n / 10) % 10) as char,
            (('0' as u8) + n % 10) as char,
        ];
        assert(m / 10 / 10 == m / 100);
        assert(decimal_text(m / 100) =~= seq![digit_char(m / 100)]);
        assert(decimal_text(m / 10) =~= seq![digit_char(m / 100), digit_char((m / 10) % 10)]);
        assert(v@ =~= decimal_text(m));
        v
    }
}

fn bool_chars(b: bool) -> (v: Vec<char>)
    ensures
        v@ == bool_text(b),
{
    let v = if b {
        vec!['t', 'r', 'u', 'e']
    } else {
        vec!['f', 'a', 'l', 's', 'e']
    };
    assert(v@ =~= bool_text(b));
    v
}

fn member_chars(key: Vec<char>, value: Vec<char>) -> (v: Vec<char>)
    ensures
        v@ == member(key@, value@),
{
    let ghost k = key@;
    let ghost w = value@;
    let mut v = vec!['"'];
    let mut key = key;
    let mut value = value;
    v.append(&mut key);
    v.push('"');
    v.push(':');
    v.push(' ');
    v.append(&mut value);
    assert(v@ =~= member(k, w));
    v
}

/// The settings document, as the mod writes it to `settings.json`.
pub fn settings_json(settings: Settings) -> (text: String)
    ensures
        text@ == settings_text(settings),
{
    let k1 = vec!['s', 'k', 'i', 'p', '_', 'd', 'i', 's', 'c', 'l', 'a', 'i', 'm', 'e', 'r'];
    let k2 = vec!['a', 'u', 't', 'o', '_', 'c', 'o', 'n', 't', 'i', 'n', 'u', 'e'];
    let k3 = vec!['a', 'u', 't', 'o', '_', 'l', 'o', 'a', 'd', '_', 'a', 'n', 'y', 'w', 'a', 'y'];
    let k4 = vec![
        'b', 'a', 'c', 'k', 'u', 'p', '_', 'r', 'e', 't', 'e', 'n', 't', 'i', 'o', 'n', '_', 'd', 'a',
        'y', 's',
    ];
    assert(k1@ =~= key_skip_disclaimer());
    assert(k2@ =~= key_auto_continue());
    assert(k3@ =~= key_auto_load_anyway());
    assert(k4@ =~= key_backup_retention_days());
    let mut m1 = member_chars(k1, bool_chars(settings.skip_disclaimer));
    let mut m2 = member_chars(k2, bool_chars(settings.auto_continue));
    let mut m3 = member_chars(k3, bool_chars(settings.auto_load_anyway));
    let mut m4 = member_chars(k4, decimal_chars(settings.backup_retention_days));
    let ghost g1 = m1@;
    let ghost g2 = m2@;
    let ghost g3 = m3@;
    let ghost g4 = m4@;
    let mut out = vec!['{', '\n', ' ', ' '];
    out.append(&mut m1);
    let mut sep1 = vec![',', '\n', ' ', ' '];
    out.append(&mut sep1);
    out.append(&mut m2);
    let mut sep2 = vec![',', '\n', ' ', ' '];
    out.append(&mut sep2);
    out.append(&mut m3);
    let mut sep3 = vec![',', '\n', ' ', ' '];
    out.append(&mut sep3);
    out.append(&mut m4);
    let mut close = vec!['\n', '}', '\n'];
    out.append(&mut close);
    assert(out@ =~= doc_open() + (g1 + (doc_separator() + (g2 + (doc_separator() + (g3 + (
    doc_separator() + (g4 + doc_close()))))))));
    string_of(&out)
}


/// No double quote in `s`.
pub open spec fn no_quote(s: Seq<char>) -> bool {
    forall|i: int| 0 <= i < s.len() ==> s[i] != '"'
}

/// A pattern that cannot start anywhere inside `x` leaves the text after its
/// first occurrence in `x + y` equal to the text after its first occurrence in `y`.
proof fn lemma_after_first_skip(x: Seq<char>, y: Seq<char>, p: Seq<char>)
    requires
        forall|i: int| 0 <= i < x.len() ==> !occurs_at(x + y, p, i),
    ensures
        after_first(x + y, p) == after_first(y, p),
{
    let s = x + y;
    lemma_find_from(s, p, 0);
    lemma_find_from(y, p, 0);
    assert forall|j: int| 0 <= j implies occurs_at(s, p, x.len() + j) == occurs_at(y, p, j) by {
        if j + p.len() <= y.len() {
            assert(s.subrange(x.len() + j, x.len() + j + p.len()) =~= y.subrange(j, j + p.len()));
        }
    }
    match find(y, p) {
        Some(j) => {
            assert(occurs_at(s, p, (x.len() + j) as int));
            match find(s, p) {
                Some(m) => {
                    if m < x.len() + j {
                        assert(occurs_at(y, p, (m - x.len()) as int));
                    }
                    assert(m == x.len() + j);
                    assert(s.subrange((m + p.len()) as int, s.len() as int) =~= y.subrange(
                        (j + p.len()) as int,
                        y.len() as int,
                    ));
                },
                None => {},
            }
        },
        None => {
            match find(s, p) {
                Some(m) => {
                    assert(occurs_at(y, p, (m - x.len()) as int));
                },
                None => {},
            }
        },
    }
}

/// A pattern found at the very start: what follows it.
proof fn lemma_after_first_front(s: Seq<char>, p: Seq<char>)
    requires
        occurs_at(s, p, 0),
    ensures
        after_first(s, p) == Some(s.skip(p.len() as int)),
{
    lemma_find_from(s, p, 0);
}

/// A quoted key cannot start inside text that has no quote.
proof fn lemma_no_quote_no_match(x: Seq<char>, y: Seq<char>, key: Seq<char>)
    requires
        no_quote(x),
    ensures
        after_first(x + y, quoted(key)) == after_first(y, quoted(key)),
{
    let p = quoted(key);
    assert forall|i: int| 0 <= i < x.len() implies !occurs_at(x + y, p, i) by {
        if occurs_at(x + y, p, i) {
            assert((x + y).subrange(i, i + p.len())[0] == p[0]);
        }
    }
    lemma_after_first_skip(x, y, p);
}

/// A member for another key, whose name differs from `key` at index `m`,
/// holds no occurrence of `"key"`.
proof fn lemma_other_member(other: Seq<char>, value: Seq<char>, y: Seq<char>, key: Seq<char>, m: int)
    requires
        no_quote(other),
        no_quote(value),
        0 <= m < other.len(),
        m < key.len(),
        other[m] != key[m],
        key[0] != ':',
    ensures
        after_first(member(other, value) + y, quoted(key)) == after_first(y, quoted(key)),
{
    let e = member(other, value);
    let s = e + y;
    let p = quoted(key);
    assert forall|i: int| 0 <= i < e.len() implies !occurs_at(s, p, i) by {
        if occurs_at(s, p, i) {
            let w = s.subrange(i, i + p.len());
            if i == 0 {
                assert(w[m + 1] == p[m + 1]);
            } else if i <= other.len() {
                assert(w[0] == p[0]);
                assert(s[i] == other[i - 1]);
            } else if i == other.len() + 1 {
                assert(w[1] == p[1]);
            } else {
                assert(w[0] == p[0]);
                assert(s[i] == value[i - other.len() - 4]);
            }
        }
    }
    lemma_after_first_skip(e, y, p);
}

/// The member for `key` itself: what follows its quoted name.
proof fn lemma_own_member(key: Seq<char>, value: Seq<char>, y: Seq<char>)
    ensures
        after_first(member(key, value) + y, quoted(key)) == Some(seq![':', ' '] + value + y),
{
    let s = member(key, value) + y;
    let p = quoted(key);
    assert(s.subrange(0, p.len() as int) =~= p);
    lemma_after_first_front(s, p);
    assert(s.skip(p.len() as int) =~= seq![':', ' '] + value + y);
}

/// From the text after a quoted key to the value text.
proof fn lemma_value_after_key(source: Seq<char>, key: Seq<char>, value: Seq<char>, y: Seq<char>)
    requires
        after_first(source, quoted(key)) == Some(seq![':', ' '] + value + y),
        value.len() > 0,
        !is_white_space(value[0]),
    ensures
        value_text(source, key) == Some(value + y),
{
    let rest = seq![':', ' '] + value + y;
    let colon: Seq<char> = seq![':'];
    assert(rest.subrange(0, 1) =~= colon);
    lemma_after_first_front(rest, colon);
    let after = rest.skip(1);
    assert(after.drop_first() =~= value + y);
    assert(trim_start(after) == trim_start(after.drop_first()));
    assert((value + y)[0] == value[0]);
}

proof fn lemma_bool_value(source: Seq<char>, key: Seq<char>, b: bool, y: Seq<char>)
    requires
        value_text(source, key) == Some(bool_text(b) + y),
    ensures
        json_bool(source, key) == Some(b),
{
    let v = bool_text(b) + y;
    let t: Seq<char> = seq!['t', 'r', 'u', 'e'];
    let f: Seq<char> = seq!['f', 'a', 'l', 's', 'e'];
    if b {
        assert(v.subrange(0, 4) =~= t);
    } else {
        assert(v.subrange(0, 4)[0] != t[0]);
        assert(v.subrange(0, 5) =~= f);
    }
}

proof fn lemma_decimal_text(n: nat)
    ensures
        decimal_text(n).len() > 0,
        forall|i: int| 0 <= i < decimal_text(n).len() ==> is_ascii_digit(#[trigger] decimal_text(n)[i]),
        decimal_value(decimal_text(n)) == n,
    decreases n,
{
    let d = n % 10;
    assert(digit_char(d) as nat == ('0' as nat) + d);
    if n >= 10 {
        lemma_decimal_text(n / 10);
        let t = decimal_text(n);
        assert(t.drop_last() =~= decimal_text(n / 10));
        assert(t.last() == digit_char(d));
        assert(n == (n / 10) * 10 + d);
        assert(decimal_value(t) == decimal_value(t.drop_last()) * 10 + d);
    } else {
        let t = decimal_text(n);
        assert(t.drop_last() =~= seq![]);
        assert(decimal_value(t.drop_last()) == 0);
        assert(t.last() == digit_char(n));
        assert(decimal_value(t) == decimal_value(t.drop_last()) * 10 + d);
    }
}

/// The decimal text of a number is made of digits.
pub proof fn lemma_decimal_text_digits(n: nat)
    ensures
        decimal_text(n).len() > 0,
        forall|i: int| 0 <= i < decimal_text(n).len() ==> '0' <= #[trigger] decimal_text(n)[i] <= '9',
{
    lemma_decimal_text(n);
    assert forall|i: int| 0 <= i < decimal_text(n).len() implies '0' <= #[trigger] decimal_text(n)[i] <= '9' by {
        assert(is_ascii_digit(decimal_text(n)[i]));
    }
}

proof fn lemma_number_value(source: Seq<char>, key: Seq<char>, n: nat, y: Seq<char>)
    requires
        value_text(source, key) == Some(decimal_text(n) + y),
        n <= 255,
        y.len() > 0,
        !is_ascii_digit(y[0]),
    ensures
        json_u8(source, key) == Some(n as u8),
{
    let d = decimal_text(n);
    let v = d + y;
    lemma_decimal_text(n);
    crate::json::lemma_leading_digits_step(v, d.len() as int);
    assert(v.take(d.len() as int) =~= d);
    assert(v.skip(d.len() as int) =~= y);
    assert(leading_digits(y) =~= seq![]);
    assert(leading_digits(v) =~= d);
}

/// Law: reading back the settings document gives the settings that were written,
/// and nothing needs to be written again, whenever the retention is one of the
/// offered choices (the only retentions the mod stores).
pub proof fn lemma_settings_roundtrip(s: Settings)
    requires
        is_retention_choice(s.backup_retention_days),
    ensures
        settings_from(settings_text(s)) == s,
        valid_retention(settings_text(s)) == Some(s.backup_retention_days),
{
    let k1 = key_skip_disclaimer();
    let k2 = key_auto_continue();
    let k3 = key_auto_load_anyway();
    let k4 = key_backup_retention_days();
    let v1 = bool_text(s.skip_disclaimer);
    let v2 = bool_text(s.auto_continue);
    let v3 = bool_text(s.auto_load_anyway);
    let v4 = decimal_text(s.backup_retention_days as nat);
    lemma_decimal_text(s.backup_retention_days as nat);
    let r4 = member(k4, v4) + doc_close();
    let r3 = member(k3, v3) + (doc_separator() + r4);
    let r2 = member(k2, v2) + (doc_separator() + r3);
    let r1 = member(k1, v1) + (doc_separator() + r2);
    let t = doc_open() + r1;
    assert(t == settings_text(s));
    assert(no_quote(doc_open()));
    assert(no_quote(doc_separator()));
    assert(no_quote(v1));
    assert(no_quote(v2));
    assert(no_quote(v3));
    assert(no_quote(v4));
    assert(no_quote(k1));
    assert(no_quote(k2));
    assert(no_quote(k3));
    // skip_disclaimer
    lemma_no_quote_no_match(doc_open(), r1, k1);
    lemma_own_member(k1, v1, doc_separator() + r2);
    lemma_value_after_key(t, k1, v1, doc_separator() + r2);
    lemma_bool_value(t, k1, s.skip_disclaimer, doc_separator() + r2);
    // auto_continue
    lemma_no_quote_no_match(doc_open(), r1, k2);
    lemma_other_member(k1, v1, doc_separator() + r2, k2, 0);
    lemma_no_quote_no_match(doc_separator(), r2, k2);
    lemma_own_member(k2, v2, doc_separator() + r3);
    lemma_value_after_key(t, k2, v2, doc_separator() + r3);
    lemma_bool_value(t, k2, s.auto_continue, doc_separator() + r3);
    // auto_load_anyway
    lemma_no_quote_no_match(doc_open(), r1, k3);
    lemma_other_member(k1, v1, doc_separator() + r2, k3, 0);
    lemma_no_quote_no_match(doc_separator(), r2, k3);
    lemma_other_member(k2, v2, doc_separator() + r3, k3, 5);
    lemma_no_quote_no_match(doc_separator(), r3, k3);
    lemma_own_member(k3, v3, doc_separator() + r4);
    lemma_value_after_key(t, k3, v3, doc_separator() + r4);
    lemma_bool_value(t, k3, s.auto_load_anyway, doc_separator() + r4);
    // backup_retention_days
    lemma_no_quote_no_match(doc_open(), r1, k4);
    lemma_other_member(k1, v1, doc_separator() + r2, k4, 0);
    lemma_no_quote_no_match(doc_separator(), r2, k4);
    lemma_other_member(k2, v2, doc_separator() + r3, k4, 0);
    lemma_no_quote_no_match(doc_separator(), r3, k4);
    lemma_other_member(k3, v3, doc_separator() + r4, k4, 0);
    lemma_no_quote_no_match(doc_separator(), r4, k4);
    lemma_own_member(k4, v4, doc_close());
    lemma_value_after_key(t, k4, v4, doc_close());
    lemma_number_value(t, k4, s.backup_retention_days as nat, doc_close());
}

} // verus!
