//! Managed save backups: which files count as saves and backups, their names,
//! which backup is the latest and which are listed, and when one has expired.
use vstd::prelude::*;
use crate::settings::decimal_text;
use crate::text::{
    chars_of, contains, find_exec, lemma_find_from, occurs_at, starts_with, starts_with_exec, string_of,
};

verus! {

/// Index of the last `c` in `s`.
pub open spec fn last_index_of(s: Seq<char>, c: char) -> Option<int>
    decreases s.len(),
{
    if s.len() == 0 {
        None
    } else if s.last() == c {
        Some(s.len() - 1)
    } else {
        last_index_of(s.drop_last(), c)
    }
}

/// The extension of a file name, as `Path::extension` gives it: the text after
/// the last dot, unless there is no dot, the only dot leads the name, or the name is `..`.
pub open spec fn extension(name: Seq<char>) -> Option<Seq<char>> {
    if name == seq!['.', '.'] {
        None
    } else {
        match last_index_of(name, '.') {
            Some(i) => if i == 0 {
                None
            } else {
                Some(name.subrange(i + 1, name.len() as int))
            },
            None => None,
        }
    }
}

pub open spec fn save_prefix() -> Seq<char> {
    seq!['s', 'a', 'v', 'e', '_']
}

pub open spec fn backup_marker() -> Seq<char> {
    seq!['_', '_', 'b', 'e', 'f', 'o', 'r', 'e', '_', 'm', 'o', 'd', '_', 'l', 'o', 'a', 'd', '_']
}

pub open spec fn data_extension() -> Seq<char> {
    seq!['d', 'a', 't', 'a']
}

/// A career save: a file named `save_*` with the extension `data`.
pub open spec fn is_career_save_spec(name: Seq<char>, is_file: bool) -> bool {
    is_file && starts_with(name, save_prefix()) && extension(name) == Some(data_extension())
}

/// A backup this mod made and manages: a `save_*` file with `__before_mod_load_`
/// in its name and the extension `data`.
pub open spec fn is_managed_backup_spec(name: Seq<char>, is_file: bool) -> bool {
    is_file && starts_with(name, save_prefix()) && contains(name, backup_marker()) && extension(name)
        == Some(data_extension())
}

/// A backup of the save whose stem is `stem`: `<stem>__before_mod_load_*` with the extension `data`.
pub open spec fn is_backup_of_spec(name: Seq<char>, is_file: bool, stem: Seq<char>) -> bool {
    is_file && starts_with(name, stem + backup_marker()) && extension(name) == Some(data_extension())
}

fn last_dot(s: &Vec<char>) -> (r: Option<usize>)
    ensures
        match r {
            Some(i) => i < s.len() && last_index_of(s@, '.') == Some(i as int),
            None => last_index_of(s@, '.') is None,
        },
{
    let mut i = s.len();
    assert(s@.take(i as int) =~= s@);
    while i > 0
        invariant
            i <= s.len(),
            last_index_of(s@, '.') == last_index_of(s@.take(i as int), '.'),
        decreases i,
    {
        assert(s@.take(i as int).drop_last() =~= s@.take(i - 1));
        if s[i - 1] == '.' {
            return Some(i - 1);
        }
        i = i - 1;
    }
    None
}

/// Does the file name have the extension `data`?
pub fn has_data_extension(name: &Vec<char>) -> (b: bool)
    ensures
        b == (extension(name@) == Some(data_extension())),
{
    if name.len() == 2 && name[0] == '.' && name[1] == '.' {
        assert(name@ =~= seq!['.', '.']);
        return false;
    }
    assert(name@ != seq!['.', '.'] || name.len() != 2);
    match last_dot(name) {
        Some(i) => {
            if i == 0 {
                return false;
            }
            let n = name.len();
            if n - (i + 1) != 4 {
                assert(name@.subrange(i + 1, n as int).len() != 4);
                return false;
            }
            let b = name[i + 1] == 'd' && name[i + 2] == 'a' && name[i + 3] == 't' && name[i + 4] == 'a';
            if b {
                assert(name@.subrange(i + 1, n as int) =~= data_extension());
            } else {
                assert(name@.subrange(i + 1, n as int) != data_extension()) by {
                    if name@.subrange(i + 1, n as int) == data_extension() {
                        assert(name@.subrange(i + 1, n as int)[0] == 'd');
                        assert(name@.subrange(i + 1, n as int)[1] == 'a');
                        assert(name@.subrange(i + 1, n as int)[2] == 't');
                        assert(name@.subrange(i + 1, n as int)[3] == 'a');
                    }
                }
            }
            b
        },
        None => false,
    }
}

fn save_prefix_chars() -> (v: Vec<char>)
    ensures
        v@ == save_prefix(),
{
    let v = vec!['s', 'a', 'v', 'e', '_'];
    assert(v@ =~= save_prefix());
    v
}

fn backup_marker_chars() -> (v: Vec<char>)
    ensures
        v@ == backup_marker(),
{
    let v = vec!['_', '_', 'b', 'e', 'f', 'o', 'r', 'e', '_', 'm', 'o', 'd', '_', 'l', 'o', 'a', 'd', '_'];
    assert(v@ =~= backup_marker());
    v
}

/// Is the file a career save (`save_*.data`)?
pub fn is_career_save(file_name: &str, is_file: bool) -> (b: bool)
    ensures
        b == is_career_save_spec(file_name@, is_file),
{
    let name = chars_of(file_name);
    is_file && starts_with_exec(&name, &save_prefix_chars()) && has_data_extension(&name)
}

/// Is the file a backup this mod manages (`save_*__before_mod_load_*.data`)?
pub fn is_managed_backup(file_name: &str, is_file: bool) -> (b: bool)
    ensures
        b == is_managed_backup_spec(file_name@, is_file),
{
    let name = chars_of(file_name);
    if !(is_file && starts_with_exec(&name, &save_prefix_chars())) {
        return false;
    }
    let marker = backup_marker_chars();
    let found = find_exec(&name, &marker, 0);
    found.is_some() && has_data_extension(&name)
}

/// Is the file a backup of the save whose file stem is `stem`?
pub fn is_backup_of(file_name: &str, is_file: bool, stem: &str) -> (b: bool)
    ensures
        b == is_backup_of_spec(file_name@, is_file, stem@),
{
    let name = chars_of(file_name);
    let mut prefix = chars_of(stem);
    let ghost s = prefix@;
    let mut marker = backup_marker_chars();
    prefix.append(&mut marker);
    assert(prefix@ =~= s + backup_marker());
    is_file && starts_with_exec(&name, &prefix) && has_data_extension(&name)
}


/// `order` lists distinct entries of `times`, newest first: the `min(n, limit)`
/// newest ones, as sorting by time (newest first) and taking `limit` gives them.
/// Entries with equal times may come in either order.
pub open spec fn is_recent_order(times: Seq<i128>, limit: nat, order: Seq<usize>) -> bool {
    &&& order.len() == if times.len() < limit { times.len() } else { limit }
    &&& forall|k: int| 0 <= k < order.len() ==> order[k] < times.len()
    &&& forall|k: int, l: int| 0 <= k < l < order.len() ==> order[k] != order[l]
    &&& forall|k: int, l: int| 0 <= k < l < order.len() ==> times[order[l] as int] <= times[order[k] as int]
    &&& forall|j: int, k: int|
        #![trigger times[j], order[k]]
        0 <= j < times.len() && 0 <= k < order.len() && !order.contains(j as usize)
        ==> times[j] <= times[order[k] as int]
}

proof fn lemma_some_untaken(order: Seq<usize>, n: nat)
    requires
        order.len() < n,
        n <= usize::MAX,
        forall|k: int| 0 <= k < order.len() ==> order[k] < n,
    ensures
        exists|j: usize| j < n && !order.contains(j),
{
    let s = order.map_values(|x: usize| x as int).to_set();
    order.map_values(|x: usize| x as int).lemma_cardinality_of_set();
    vstd::set_lib::lemma_int_range(0, n as int);
    if forall|j: usize| j < n ==> order.contains(j) {
        assert forall|j: int| vstd::set_lib::set_int_range(0, n as int).contains(j) implies s.contains(j) by {
            assert(order.contains(j as usize));
            let k = choose|k: int| 0 <= k < order.len() && order[k] == j as usize;
            assert(order.map_values(|x: usize| x as int)[k] == j);
        }
        vstd::set_lib::lemma_len_subset(vstd::set_lib::set_int_range(0, n as int), s);
        assert(false);
    }
}

/// Indices of the `limit` most recently modified entries, newest first.
pub fn recent_order(times: &Vec<i128>, limit: usize) -> (order: Vec<usize>)
    ensures
        is_recent_order(times@, limit as nat, order@),
{
    let n = times.len();
    let mut taken: Vec<bool> = Vec::new();
    while taken.len() < n
        invariant
            taken.len() <= n,
            forall|j: int| 0 <= j < taken.len() ==> !taken@[j],
        decreases n - taken.len(),
    {
        taken.push(false);
    }
    let mut order: Vec<usize> = Vec::new();
    while order.len() < limit && order.len() < n
        invariant
            n == times.len(),
            taken.len() == n,
            order.len() <= limit,
            order.len() <= n,
            forall|k: int| 0 <= k < order.len() ==> order@[k] < n,
            forall|j: int| 0 <= j < n ==> (taken@[j] <==> order@.contains(j as usize)),
            forall|k: int, l: int| 0 <= k < l < order.len() ==> order@[k] != order@[l],
            forall|k: int, l: int| 0 <= k < l < order.len() ==> times@[order@[l] as int] <= times@[order@[k] as int],
            forall|j: int, k: int|
                #![trigger times@[j], order@[k]]
                0 <= j < n && 0 <= k < order.len() && !order@.contains(j as usize)
                ==> times@[j] <= times@[order@[k] as int],
        decreases n - order.len(),
    {
        proof {
            lemma_some_untaken(order@, n as nat);
        }
        let mut best: Option<usize> = None;
        let mut j: usize = 0;
        while j < n
            invariant
                n == times.len(),
                taken.len() == n,
                j <= n,
                match best {
                    Some(b) => b < j && !taken@[b as int] && forall|k: int| 0 <= k < j && !taken@[k] ==> times@[k] <= times@[b as int],
                    None => forall|k: int| 0 <= k < j ==> taken@[k],
                },
            decreases n - j,
        {
            if !taken[j] {
                match best {
                    Some(b) => {
                        if times[j] > times[b] {
                            best = Some(j);
                        }
                    },
                    None => {
                        best = Some(j);
                    },
                }
            }
            j = j + 1;
        }
        let b = match best {
            Some(b) => b,
            None => {
                proof {
                    let w = choose|w: usize| w < n && !order@.contains(w);
                    assert(taken@[w as int]);
                }
                return order;
            },
        };
        let ghost old_order = order@;
        taken.set(b, true);
        order.push(b);
        proof {
            assert forall|j: int| 0 <= j < n implies (taken@[j] <==> order@.contains(j as usize)) by {
                if j == b as int {
                    assert(order@[old_order.len() as int] == b);
                } else {
                    if order@.contains(j as usize) {
                        let k = choose|k: int| 0 <= k < order@.len() && order@[k] == j as usize;
                        assert(old_order[k] == j as usize);
                    }
                    if old_order.contains(j as usize) {
                        let k = choose|k: int| 0 <= k < old_order.len() && old_order[k] == j as usize;
                        assert(order@[k] == j as usize);
                    }
                }
            }
            assert forall|k: int, l: int| 0 <= k < l < order.len() implies order@[k] != order@[l] by {
                if l == old_order.len() {
                    assert(!old_order.contains(b));
                    assert(old_order[k] == order@[k]);
                }
            }
            assert forall|j: int, k: int|
                #![trigger times@[j], order@[k]]
                0 <= j < n && 0 <= k < order.len() && !order@.contains(j as usize)
                implies times@[j] <= times@[order@[k] as int] by {
                assert(!old_order.contains(j as usize)) by {
                    if old_order.contains(j as usize) {
                        let m = choose|m: int| 0 <= m < old_order.len() && old_order[m] == j as usize;
                        assert(order@[m] == j as usize);
                    }
                }
                assert(j != b as int) by {
                    assert(order@[old_order.len() as int] == b);
                }
                assert(!taken@[j]);
            }
        }
    }
    order
}


/// Seconds in a retention day.
pub const SECONDS_PER_DAY: u64 = 86400;

/// Has a backup of this age outlived the retention? Ages are given as whole
/// seconds and the nanoseconds beyond them, as `Duration` holds them.
pub fn backup_is_expired(age_secs: u64, age_subsec_nanos: u32, retention_days: u8) -> (b: bool)
    requires
        age_subsec_nanos < 1_000_000_000,
    ensures
        b == (age_secs * 1_000_000_000 + age_subsec_nanos > retention_days * SECONDS_PER_DAY
            * 1_000_000_000),
{
    let retention = (retention_days as u64) * SECONDS_PER_DAY;
    let b = age_secs > retention || (age_secs == retention && age_subsec_nanos > 0);
    proof {
        let a = age_secs as int;
        let n = age_subsec_nanos as int;
        let r = retention as int;
        assert(r == retention_days * SECONDS_PER_DAY);
        if a > r {
            assert(a * 1_000_000_000 >= (r + 1) * 1_000_000_000) by (nonlinear_arith)
                requires
                    a >= r + 1,
            ;
        } else if a < r {
            assert(a * 1_000_000_000 + 1_000_000_000 <= r * 1_000_000_000) by (nonlinear_arith)
                requires
                    a + 1 <= r,
            ;
        }
    }
    b
}

/// `n` in decimal, left-padded with zeros to at least `width` digits (`{:0width}`).
pub open spec fn padded(n: nat, width: nat) -> Seq<char> {
    let d = decimal_text(n);
    if d.len() >= width {
        d
    } else {
        Seq::new((width - d.len()) as nat, |i: int| '0') + d
    }
}

/// The local-time stamp used in file names: `YYYYMMDD_HHMMSS`.
pub open spec fn timestamp_text(year: u16, month: u16, day: u16, hour: u16, minute: u16, second: u16) -> Seq<char> {
    padded(year as nat, 4) + padded(month as nat, 2) + padded(day as nat, 2) + seq!['_'] + padded(
        hour as nat,
        2,
    ) + padded(minute as nat, 2) + padded(second as nat, 2)
}

fn decimal_digits(n: u16) -> (v: Vec<char>)
    ensures
        v@ == decimal_text(n as nat),
    decreases n,
{
    let d = (('0' as u8) + ((n % 10) as u8)) as char;
    if n < 10 {
        let v = vec![d];
        assert(v@ =~= decimal_text(n as nat));
        v
    } else {
        let mut v = decimal_digits(n / 10);
        v.push(d);
        v
    }
}

fn padded_digits(n: u16, width: usize) -> (v: Vec<char>)
    requires
        width <= 5,
    ensures
        v@ == padded(n as nat, width as nat),
{
    let d = decimal_digits(n);
    if d.len() >= width {
        return d;
    }
    let mut v: Vec<char> = Vec::new();
    while v.len() < width - d.len()
        invariant
            d.len() < width,
            v.len() <= width - d.len(),
            forall|i: int| 0 <= i < v.len() ==> v@[i] == '0',
        decreases width - d.len() - v.len(),
    {
        v.push('0');
    }
    let ghost zeros = v@;
    let mut d = d;
    let ghost dv = d@;
    v.append(&mut d);
    assert(zeros =~= Seq::new((width - dv.len()) as nat, |i: int| '0'));
    assert(v@ =~= zeros + dv);
    v
}

/// Formats a local time as `YYYYMMDD_HHMMSS`, each field zero-padded.
pub fn format_timestamp(year: u16, month: u16, day: u16, hour: u16, minute: u16, second: u16) -> (s: String)
    ensures
        s@ == timestamp_text(year, month, day, hour, minute, second),
{
    let mut v = padded_digits(year, 4);
    let ghost g0 = v@;
    let mut p1 = padded_digits(month, 2);
    let ghost g1 = p1@;
    let mut p2 = padded_digits(day, 2);
    let ghost g2 = p2@;
    let mut p3 = padded_digits(hour, 2);
    let ghost g3 = p3@;
    let mut p4 = padded_digits(minute, 2);
    let ghost g4 = p4@;
    let mut p5 = padded_digits(second, 2);
    let ghost g5 = p5@;
    v.append(&mut p1);
    v.append(&mut p2);
    v.push('_');
    v.append(&mut p3);
    v.append(&mut p4);
    v.append(&mut p5);
    assert(v@ =~= g0 + g1 + g2 + seq!['_'] + g3 + g4 + g5);
    string_of(&v)
}

/// `<stem>__before_mod_load_<timestamp>.data`: the name of a new backup of a save.
pub open spec fn backup_name_text(stem: Seq<char>, timestamp: Seq<char>) -> Seq<char> {
    stem + backup_marker() + timestamp + seq!['.'] + data_extension()
}

/// `save_<timestamp>.data`: the name of a save imported from a backup.
pub open spec fn import_name_text(timestamp: Seq<char>) -> Seq<char> {
    save_prefix() + timestamp + seq!['.'] + data_extension()
}

pub fn backup_file_name(source_stem: &str, timestamp: &str) -> (name: String)
    ensures
        name@ == backup_name_text(source_stem@, timestamp@),
{
    let mut v = chars_of(source_stem);
    let ghost s = v@;
    let mut m = backup_marker_chars();
    let mut t = chars_of(timestamp);
    let ghost tv = t@;
    v.append(&mut m);
    v.append(&mut t);
    v.push('.');
    v.push('d');
    v.push('a');
    v.push('t');
    v.push('a');
    assert(v@ =~= backup_name_text(s, tv));
    string_of(&v)
}

pub fn import_file_name(timestamp: &str) -> (name: String)
    ensures
        name@ == import_name_text(timestamp@),
{
    let mut v = save_prefix_chars();
    let mut t = chars_of(timestamp);
    let ghost tv = t@;
    v.append(&mut t);
    v.push('.');
    v.push('d');
    v.push('a');
    v.push('t');
    v.push('a');
    assert(v@ =~= import_name_text(tv));
    string_of(&v)
}

proof fn lemma_data_extension(x: Seq<char>)
    requires
        x.len() > 0,
    ensures
        extension(x + seq!['.'] + data_extension()) == Some(data_extension()),
{
    let name = x + seq!['.'] + data_extension();
    let d1 = name.drop_last();
    let d2 = d1.drop_last();
    let d3 = d2.drop_last();
    let d4 = d3.drop_last();
    assert(d4 =~= x + seq!['.']);
    assert(name.last() == 'a' && d1.last() == 't' && d2.last() == 'a' && d3.last() == 'd');
    assert(last_index_of(d4, '.') == Some(x.len() as int));
    assert(last_index_of(d3, '.') == last_index_of(d4, '.'));
    assert(last_index_of(d2, '.') == last_index_of(d3, '.'));
    assert(last_index_of(d1, '.') == last_index_of(d2, '.'));
    assert(last_index_of(name, '.') == last_index_of(d1, '.'));
    assert(name.len() != 2);
    assert(name.subrange(x.len() + 1int, name.len() as int) =~= data_extension());
}

/// Law: every backup name this mod creates is recognised as a managed backup
/// and as a backup of its save, whenever the save's stem starts with `save_`.
pub proof fn lemma_created_backup_is_managed(stem: Seq<char>, timestamp: Seq<char>)
    requires
        starts_with(stem, save_prefix()),
    ensures
        is_managed_backup_spec(backup_name_text(stem, timestamp), true),
        is_backup_of_spec(backup_name_text(stem, timestamp), true, stem),
{
    let head = stem + backup_marker() + timestamp;
    let name = backup_name_text(stem, timestamp);
    assert(name == head + seq!['.'] + data_extension());
    lemma_data_extension(head);
    assert(name.subrange(0, 5) =~= stem.subrange(0, 5));
    let marker_at = stem.len() as int;
    assert(name.subrange(marker_at, marker_at + backup_marker().len()) =~= backup_marker());
    assert(occurs_at(name, backup_marker(), marker_at));
    lemma_find_from(name, backup_marker(), 0);
    assert(starts_with(name, save_prefix()));
    assert(name.subrange(0, (stem + backup_marker()).len() as int) =~= stem + backup_marker());
}


/// What one pair of reads tells about two files being compared.
#[derive(Clone, Copy, PartialEq, Eq, Debug, Structural)]
pub enum ChunkVerdict {
    /// The reads differ in length or in bytes: the files differ.
    Differ,
    /// Both files ended together with all bytes equal.
    Same,
    /// Equal so far; read on.
    Continue,
}

pub open spec fn chunk_verdict(first: Seq<u8>, second: Seq<u8>) -> ChunkVerdict {
    if first != second {
        ChunkVerdict::Differ
    } else if first.len() == 0 {
        ChunkVerdict::Same
    } else {
        ChunkVerdict::Continue
    }
}

/// Compares the bytes just read from two files (`first_read` bytes into
/// `first`, `second_read` into `second`).
pub fn compare_chunks(first: &[u8], first_read: usize, second: &[u8], second_read: usize) -> (v: ChunkVerdict)
    requires
        first_read <= first@.len(),
        second_read <= second@.len(),
    ensures
        v == chunk_verdict(first@.take(first_read as int), second@.take(second_read as int)),
{
    if first_read != second_read {
        assert(first@.take(first_read as int).len() != second@.take(second_read as int).len());
        return ChunkVerdict::Differ;
    }
    let mut i: usize = 0;
    while i < first_read
        invariant
            i <= first_read,
            first_read == second_read,
            first_read <= first@.len(),
            second_read <= second@.len(),
            forall|k: int| 0 <= k < i ==> first@[k] == second@[k],
        decreases first_read - i,
    {
        if first[i] != second[i] {
            assert(first@.take(first_read as int)[i as int] != second@.take(second_read as int)[i as int]);
            return ChunkVerdict::Differ;
        }
        i = i + 1;
    }
    assert(first@.take(first_read as int) =~= second@.take(second_read as int));
    if first_read == 0 {
        ChunkVerdict::Same
    } else {
        ChunkVerdict::Continue
    }
}

/// May an existing backup of the save stand in for a new one? Only when it has the
/// save's size and is not older than the save; its bytes are compared next.
pub fn existing_backup_may_be_reused(existing_len: u64, source_len: u64, existing_modified: i128, source_modified: i128) -> (b: bool)
    ensures
        b == (existing_len == source_len && existing_modified >= source_modified),
{
    existing_len == source_len && existing_modified >= source_modified
}


/// Law: a save imported from a backup gets a name the game lists as a career
/// save, so it shows in the regular Load menu.
pub proof fn lemma_imported_save_is_career_save(timestamp: Seq<char>)
    ensures
        is_career_save_spec(import_name_text(timestamp), true),
{
    let head = save_prefix() + timestamp;
    let name = import_name_text(timestamp);
    assert(name == head + seq!['.'] + data_extension());
    lemma_data_extension(head);
    assert(name.subrange(0, 5) =~= save_prefix());
}

pub open spec fn all_digits(s: Seq<char>) -> bool {
    forall|i: int| 0 <= i < s.len() ==> '0' <= #[trigger] s[i] <= '9'
}

proof fn lemma_padded_digits(n: nat, width: nat)
    ensures
        padded(n, width).len() > 0,
        all_digits(padded(n, width)),
{
    crate::settings::lemma_decimal_text_digits(n);
    let d = decimal_text(n);
    if d.len() < width {
        let z = Seq::new((width - d.len()) as nat, |i: int| '0');
        assert forall|i: int| 0 <= i < padded(n, width).len() implies '0' <= #[trigger] padded(n, width)[i] <= '9' by {
            if i < z.len() {
            } else {
                assert(padded(n, width)[i] == d[i - z.len()]);
            }
        }
    }
}

/// What the retention cleanup learns about one directory entry: its name (if
/// readable as text), whether it is a regular file, whether its metadata could
/// be read, and its age (whole seconds and the nanoseconds beyond them), when its
/// creation (or else modification) time is known and not in the future.
#[derive(Debug)]
pub struct PruneFacts {
    pub name: Option<String>,
    pub is_file: bool,
    pub metadata_readable: bool,
    pub age: Option<(u64, u32)>,
}

/// The cleanup's verdict on one entry.
#[derive(Clone, Copy, PartialEq, Eq, Debug, Structural)]
pub enum PruneStep {
    /// Leave it and go on.
    Skip,
    /// Delete it; then report with `after_removal`.
    Remove,
    /// Stop the cleanup with an error: a managed backup could not be inspected.
    Abort,
}

/// Only a managed backup is ever deleted, and only once it has outlived the
/// retention; a managed backup whose metadata cannot be read stops the cleanup;
/// one whose age is unknown is left alone.
pub open spec fn prune_spec(facts: PruneFacts, retention_days: u8) -> PruneStep {
    match facts.name {
        None => PruneStep::Skip,
        Some(name) => if !is_managed_backup_spec(name@, facts.is_file) {
            PruneStep::Skip
        } else if !facts.metadata_readable {
            PruneStep::Abort
        } else {
            match facts.age {
                None => PruneStep::Skip,
                Some((secs, nanos)) => if secs * 1_000_000_000 + nanos > retention_days * SECONDS_PER_DAY
                    * 1_000_000_000 {
                    PruneStep::Remove
                } else {
                    PruneStep::Skip
                },
            }
        },
    }
}

/// The cleanup's verdict on one entry; see `prune_spec`.
pub fn prune_step(facts: &PruneFacts, retention_days: u8) -> (step: PruneStep)
    requires
        facts.age matches Some((_, nanos)) ==> nanos < 1_000_000_000,
    ensures
        step == prune_spec(*facts, retention_days),
        match (facts.name, facts.age) {
            (Some(name), Some((secs, nanos))) => is_managed_backup_spec(name@, facts.is_file) && facts.metadata_readable
                ==> ((step is Remove) <==> (secs * 1_000_000_000 + nanos > retention_days * 86400 * 1_000_000_000)),
            _ => true,
        },
{
    let name = match &facts.name {
        Some(name) => name,
        None => return PruneStep::Skip,
    };
    if !is_managed_backup(name.as_str(), facts.is_file) {
        return PruneStep::Skip;
    }
    if !facts.metadata_readable {
        return PruneStep::Abort;
    }
    match facts.age {
        None => PruneStep::Skip,
        Some((secs, nanos)) => if backup_is_expired(secs, nanos, retention_days) {
            PruneStep::Remove
        } else {
            PruneStep::Skip
        },
    }
}

/// Law: the cleanup deletes only managed backups, and a managed backup with
/// readable metadata and a known age `secs` seconds plus `nanos` nanoseconds is
/// deleted exactly when that age is more than `retention_days` days of 86400
/// seconds, for the retention the cleanup was given.
pub proof fn lemma_prune_by_chosen_retention(facts: PruneFacts, retention_days: u8)
    ensures
        prune_spec(facts, retention_days) is Remove ==> match facts.name {
            Some(name) => is_managed_backup_spec(name@, facts.is_file) && facts.metadata_readable,
            None => false,
        },
        match (facts.name, facts.age) {
            (Some(name), Some((secs, nanos))) => is_managed_backup_spec(name@, facts.is_file) && facts.metadata_readable
                ==> ((prune_spec(facts, retention_days) is Remove) <==> (secs * 1_000_000_000 + nanos
                > retention_days * 86400 * 1_000_000_000)),
            _ => true,
        },
{
}

/// After a deletion the cleanup asked for: the new count of removed backups, or
/// `None` (stop with an error) when the deletion failed.
pub fn after_removal(removed: usize, deleted: bool) -> (r: Option<usize>)
    requires
        removed < usize::MAX,
    ensures
        r == (if deleted { Some((removed + 1) as usize) } else { None }),
{
    if deleted {
        Some(removed + 1)
    } else {
        None
    }
}

/// `s[i]` and `s[i + 1]` are both underscores.
pub open spec fn underscore_pair(s: Seq<char>, i: int) -> bool {
    s[i] == '_' && s[i + 1] == '_'
}

pub open spec fn no_double_underscore(s: Seq<char>) -> bool {
    forall|i: int| 0 <= i < s.len() - 1 ==> !#[trigger] underscore_pair(s, i)
}

proof fn lemma_no_double_underscore(a: Seq<char>, b: Seq<char>)
    requires
        no_double_underscore(a),
        no_double_underscore(b),
        a.len() > 0 && a.last() == '_' ==> b.len() == 0 || b[0] != '_',
    ensures
        no_double_underscore(a + b),
{
    assert forall|i: int| 0 <= i < (a + b).len() - 1 implies !#[trigger] underscore_pair(a + b, i) by {
        if i < a.len() - 1 {
            assert((a + b)[i] == a[i] && (a + b)[i + 1] == a[i + 1]);
            assert(!underscore_pair(a, i));
        } else if i == a.len() - 1 {
            assert((a + b)[i] == a[i]);
            assert((a + b)[i + 1] == b[0]);
        } else {
            assert((a + b)[i] == b[i - a.len()] && (a + b)[i + 1] == b[i + 1 - a.len()]);
            assert(!underscore_pair(b, i - a.len()));
        }
    }
}

proof fn lemma_digits_no_underscore(d: Seq<char>)
    requires
        all_digits(d),
    ensures
        no_double_underscore(d),
        d.len() > 0 ==> d[0] != '_' && d.last() != '_',
{
    assert forall|i: int| 0 <= i < d.len() - 1 implies !#[trigger] underscore_pair(d, i) by {
        assert('0' <= d[i] <= '9');
    }
    if d.len() > 0 {
        assert('0' <= d[0] <= '9');
        assert('0' <= d[d.len() - 1] <= '9');
    }
}

proof fn lemma_timestamp_no_double_underscore(year: u16, month: u16, day: u16, hour: u16, minute: u16, second: u16)
    ensures
        ({
            let ts = timestamp_text(year, month, day, hour, minute, second);
            no_double_underscore(ts) && ts.len() > 0 && ts[0] != '_' && ts.last() != '_'
        }),
{
    let p1 = padded(year as nat, 4);
    let p2 = padded(month as nat, 2);
    let p3 = padded(day as nat, 2);
    let p4 = padded(hour as nat, 2);
    let p5 = padded(minute as nat, 2);
    let p6 = padded(second as nat, 2);
    lemma_padded_digits(year as nat, 4);
    lemma_padded_digits(month as nat, 2);
    lemma_padded_digits(day as nat, 2);
    lemma_padded_digits(hour as nat, 2);
    lemma_padded_digits(minute as nat, 2);
    lemma_padded_digits(second as nat, 2);
    lemma_digits_no_underscore(p1);
    lemma_digits_no_underscore(p2);
    lemma_digits_no_underscore(p3);
    lemma_digits_no_underscore(p4);
    lemma_digits_no_underscore(p5);
    lemma_digits_no_underscore(p6);
    let us: Seq<char> = seq!['_'];
    assert(no_double_underscore(us));
    lemma_no_double_underscore(p1, p2);
    lemma_no_double_underscore(p1 + p2, p3);
    lemma_no_double_underscore(p1 + p2 + p3, us);
    lemma_no_double_underscore(p1 + p2 + p3 + us, p4);
    lemma_no_double_underscore(p1 + p2 + p3 + us + p4, p5);
    lemma_no_double_underscore(p1 + p2 + p3 + us + p4 + p5, p6);
    let ts = timestamp_text(year, month, day, hour, minute, second);
    assert(ts == p1 + p2 + p3 + us + p4 + p5 + p6);
    assert(ts[0] == p1[0]);
    assert(ts.last() == p6.last());
}

proof fn lemma_no_marker(name: Seq<char>)
    requires
        no_double_underscore(name),
    ensures
        !contains(name, backup_marker()),
{
    lemma_find_from(name, backup_marker(), 0);
    assert forall|i: int| 0 <= i implies !occurs_at(name, backup_marker(), i) by {
        if occurs_at(name, backup_marker(), i) {
            let w = name.subrange(i, i + backup_marker().len());
            assert(w[0] == '_' && w[1] == '_');
            assert(underscore_pair(name, i));
        }
    }
}

/// Law: a save imported from a backup is not itself a managed backup, so the
/// retention cleanup never removes a recovery save.
pub proof fn lemma_imported_save_is_not_managed(year: u16, month: u16, day: u16, hour: u16, minute: u16, second: u16)
    ensures
        !is_managed_backup_spec(import_name_text(timestamp_text(year, month, day, hour, minute, second)), true),
{
    let ts = timestamp_text(year, month, day, hour, minute, second);
    lemma_timestamp_no_double_underscore(year, month, day, hour, minute, second);
    let tail: Seq<char> = seq!['.'] + data_extension();
    assert forall|i: int| 0 <= i < tail.len() - 1 implies !#[trigger] underscore_pair(tail, i) by {}
    let prefix = save_prefix();
    assert forall|i: int| 0 <= i < prefix.len() - 1 implies !#[trigger] underscore_pair(prefix, i) by {}
    lemma_no_double_underscore(prefix, ts);
    lemma_no_double_underscore(prefix + ts, tail);
    let name = import_name_text(ts);
    assert(name =~= prefix + ts + tail);
    lemma_no_marker(name);
}

/// A directory entry as the backup rules see it: its file name, whether it is a
/// regular file, and its modification time (nanoseconds from the Unix epoch).
#[derive(Debug)]
pub struct FileEntry {
    pub name: String,
    pub is_file: bool,
    pub modified: i128,
}

/// Indices of the entries among `entries[..n]` that satisfy `pred`, in order.
pub open spec fn candidates(entries: Seq<FileEntry>, pred: spec_fn(FileEntry) -> bool, n: int) -> Seq<usize>
    decreases n,
{
    if n <= 0 {
        seq![]
    } else if pred(entries[n - 1]) {
        candidates(entries, pred, n - 1).push((n - 1) as usize)
    } else {
        candidates(entries, pred, n - 1)
    }
}

pub open spec fn times_of(entries: Seq<FileEntry>, idx: Seq<usize>) -> Seq<i128> {
    idx.map_values(|i: usize| entries[i as int].modified)
}

/// `i` is where `max_by_key` over the entries satisfying `pred` stops: one of
/// them, modified last, and the last listed among equal times.
pub open spec fn is_latest_among(entries: Seq<FileEntry>, pred: spec_fn(FileEntry) -> bool, i: int) -> bool {
    &&& 0 <= i < entries.len()
    &&& pred(entries[i])
    &&& forall|j: int| 0 <= j < entries.len() && pred(#[trigger] entries[j]) ==> entries[j].modified <= entries[i].modified
    &&& forall|j: int| i < j < entries.len() && pred(#[trigger] entries[j]) ==> entries[j].modified < entries[i].modified
}

pub open spec fn career_save_pred() -> spec_fn(FileEntry) -> bool {
    |e: FileEntry| is_career_save_spec(e.name@, e.is_file)
}

pub open spec fn managed_backup_pred() -> spec_fn(FileEntry) -> bool {
    |e: FileEntry| is_managed_backup_spec(e.name@, e.is_file)
}

pub open spec fn backup_of_pred(stem: Seq<char>) -> spec_fn(FileEntry) -> bool {
    |e: FileEntry| is_backup_of_spec(e.name@, e.is_file, stem)
}

fn latest_flagged(entries: &Vec<FileEntry>, flags: &Vec<bool>, Ghost(pred): Ghost<spec_fn(FileEntry) -> bool>) -> (r: Option<usize>)
    requires
        flags@.len() == entries@.len(),
        forall|j: int| 0 <= j < entries@.len() ==> flags@[j] == pred(#[trigger] entries@[j]),
    ensures
        match r {
            Some(i) => is_latest_among(entries@, pred, i as int),
            None => forall|j: int| 0 <= j < entries@.len() ==> !pred(#[trigger] entries@[j]),
        },
{
    let mut best: Option<usize> = None;
    let mut j: usize = 0;
    while j < entries.len()
        invariant
            j <= entries@.len(),
            flags@.len() == entries@.len(),
            forall|k: int| 0 <= k < entries@.len() ==> flags@[k] == pred(#[trigger] entries@[k]),
            match best {
                Some(b) => b < j && pred(entries@[b as int])
                    && (forall|k: int| 0 <= k < j && pred(#[trigger] entries@[k]) ==> entries@[k].modified <= entries@[b as int].modified)
                    && (forall|k: int| b < k < j && pred(#[trigger] entries@[k]) ==> entries@[k].modified < entries@[b as int].modified),
                None => forall|k: int| 0 <= k < j ==> !pred(#[trigger] entries@[k]),
            },
        decreases entries@.len() - j,
    {
        if flags[j] {
            match best {
                Some(b) => {
                    if entries[j].modified >= entries[b].modified {
                        best = Some(j);
                    }
                },
                None => {
                    best = Some(j);
                },
            }
        }
        j = j + 1;
    }
    best
}

/// The career save modified last (the last listed among equal times).
pub fn latest_save_in(entries: &Vec<FileEntry>) -> (r: Option<usize>)
    ensures
        match r {
            Some(i) => is_latest_among(entries@, career_save_pred(), i as int),
            None => forall|j: int| 0 <= j < entries@.len() ==> !career_save_pred()(#[trigger] entries@[j]),
        },
{
    let mut flags: Vec<bool> = Vec::new();
    let mut i: usize = 0;
    while i < entries.len()
        invariant
            i <= entries@.len(),
            flags@.len() == i,
            forall|j: int| 0 <= j < i ==> flags@[j] == career_save_pred()(#[trigger] entries@[j]),
        decreases entries@.len() - i,
    {
        flags.push(is_career_save(entries[i].name.as_str(), entries[i].is_file));
        i = i + 1;
    }
    latest_flagged(entries, &flags, Ghost(career_save_pred()))
}

/// The latest existing backup of the save whose file stem is `stem`.
pub fn latest_matching_backup(entries: &Vec<FileEntry>, stem: &str) -> (r: Option<usize>)
    ensures
        match r {
            Some(i) => is_latest_among(entries@, backup_of_pred(stem@), i as int),
            None => forall|j: int| 0 <= j < entries@.len() ==> !backup_of_pred(stem@)(#[trigger] entries@[j]),
        },
{
    let mut flags: Vec<bool> = Vec::new();
    let mut i: usize = 0;
    while i < entries.len()
        invariant
            i <= entries@.len(),
            flags@.len() == i,
            forall|j: int| 0 <= j < i ==> flags@[j] == backup_of_pred(stem@)(#[trigger] entries@[j]),
        decreases entries@.len() - i,
    {
        flags.push(is_backup_of(entries[i].name.as_str(), entries[i].is_file, stem));
        i = i + 1;
    }
    latest_flagged(entries, &flags, Ghost(backup_of_pred(stem@)))
}

/// `r` lists the managed backups at the positions `order` gives among them, where
/// `order` is a newest-first order of the `limit` most recent (see `is_recent_order`).
pub open spec fn recent_via(entries: Seq<FileEntry>, limit: nat, order: Seq<usize>, r: Seq<usize>) -> bool {
    let cands = candidates(entries, managed_backup_pred(), entries.len() as int);
    &&& is_recent_order(times_of(entries, cands), limit, order)
    &&& r == order.map_values(|k: usize| cands[k as int])
}

/// The `limit` most recently modified managed backups, newest first, as indices
/// into `entries`: the managed backups are picked out in order, and among them
/// an order as `recent_order` gives it.
pub fn recent_backups(entries: &Vec<FileEntry>, limit: usize) -> (r: Vec<usize>)
    ensures
        exists|order: Seq<usize>| #[trigger] recent_via(entries@, limit as nat, order, r@),
{
    let ghost pred = managed_backup_pred();
    let mut cands: Vec<usize> = Vec::new();
    let mut times: Vec<i128> = Vec::new();
    let mut i: usize = 0;
    while i < entries.len()
        invariant
            i <= entries@.len(),
            pred == managed_backup_pred(),
            cands@ == candidates(entries@, pred, i as int),
            times@ == times_of(entries@, cands@),
            forall|k: int| 0 <= k < cands@.len() ==> cands@[k] < i,
        decreases entries@.len() - i,
    {
        let managed = is_managed_backup(entries[i].name.as_str(), entries[i].is_file);
        assert(managed == pred(entries@[i as int]));
        if managed {
            cands.push(i);
            times.push(entries[i].modified);
        }
        i = i + 1;
        assert(times@ =~= times_of(entries@, cands@));
    }
    let order = recent_order(&times, limit);
    let mut r: Vec<usize> = Vec::new();
    let mut k: usize = 0;
    while k < order.len()
        invariant
            k <= order@.len(),
            is_recent_order(times@, limit as nat, order@),
            times@.len() == cands@.len(),
            r@ == order@.take(k as int).map_values(|m: usize| cands@[m as int]),
        decreases order@.len() - k,
    {
        r.push(cands[order[k]]);
        k = k + 1;
        assert(r@ =~= order@.take(k as int).map_values(|m: usize| cands@[m as int]));
    }
    assert(order@.take(k as int) =~= order@);
    assert(recent_via(entries@, limit as nat, order@, r@));
    r
}


/// Where a verified copy (copy to a temporary file, check size and bytes, then
/// rename into place) stands.
#[derive(Clone, Copy, PartialEq, Eq, Debug)]
pub enum CopyState {
    Ready,
    ClearingTemporary,
    InspectingSource,
    /// Copying to the temporary file; the source has `expected` bytes.
    Copying { expected: u64 },
    /// Comparing the temporary file with the source; both have `expected` bytes.
    Comparing { expected: u64 },
    Renaming,
    Finished,
    Failed,
}

/// What the caller observed after the last action.
#[derive(Clone, Copy, PartialEq, Eq, Debug)]
pub enum CopyEvent {
    /// At the start: whether the target and a stale temporary file exist.
    Start { target_exists: bool, temporary_exists: bool },
    /// Whether the stale temporary file was removed.
    TemporaryCleared(bool),
    /// The source's length, or `None` when it could not be read.
    SourceLength(Option<u64>),
    /// How many bytes the copy wrote, or `None` when it failed.
    Copied(Option<u64>),
    /// Whether the temporary file's bytes equal the source's, or `None` when the comparison failed.
    Compared(Option<bool>),
    /// Whether the temporary file was renamed to the target.
    Renamed(bool),
}

#[derive(Clone, Copy, PartialEq, Eq, Debug)]
pub enum CopyError {
    TargetExists,
    StaleTemporary,
    SourceUnreadable,
    CopyFailed,
    SizeMismatch { expected: u64, copied: u64 },
    CompareFailed,
    ContentsDiffer,
    RenameFailed,
    /// An event that does not answer the last action.
    UnexpectedEvent,
}

/// The next outside step of a verified copy.
#[derive(Clone, Copy, PartialEq, Eq, Debug)]
pub enum CopyAction {
    ClearTemporary,
    InspectSource,
    CopyToTemporary,
    CompareTemporary,
    RenameToTarget,
    /// Remove the temporary file if it exists, then report the error.
    RemoveTemporaryThenFail(CopyError),
    Fail(CopyError),
    Done,
}

/// Has the temporary file possibly been written in this state? Failures from
/// here on clean it up.
pub open spec fn copy_in_progress(state: CopyState) -> bool {
    state is InspectingSource || state is Copying || state is Comparing || state is Renaming
}

/// One step of a verified copy: refuse an existing target, clear a stale
/// temporary file, copy to it, require the copied size to equal the source's
/// and the bytes to be equal, and only then rename it into place; every failure
/// once the copy is under way removes the temporary file.
pub open spec fn copy_verified_spec(state: CopyState, event: CopyEvent) -> (CopyState, CopyAction) {
    match (state, event) {
        (CopyState::Ready, CopyEvent::Start { target_exists, temporary_exists }) => if target_exists {
            (CopyState::Failed, CopyAction::Fail(CopyError::TargetExists))
        } else if temporary_exists {
            (CopyState::ClearingTemporary, CopyAction::ClearTemporary)
        } else {
            (CopyState::InspectingSource, CopyAction::InspectSource)
        },
        (CopyState::ClearingTemporary, CopyEvent::TemporaryCleared(ok)) => if ok {
            (CopyState::InspectingSource, CopyAction::InspectSource)
        } else {
            (CopyState::Failed, CopyAction::Fail(CopyError::StaleTemporary))
        },
        (CopyState::InspectingSource, CopyEvent::SourceLength(len)) => match len {
            Some(n) => (CopyState::Copying { expected: n }, CopyAction::CopyToTemporary),
            None => (CopyState::Failed, CopyAction::RemoveTemporaryThenFail(CopyError::SourceUnreadable)),
        },
        (CopyState::Copying { expected }, CopyEvent::Copied(copied)) => match copied {
            Some(n) => if n == expected {
                (CopyState::Comparing { expected }, CopyAction::CompareTemporary)
            } else {
                (
                    CopyState::Failed,
                    CopyAction::RemoveTemporaryThenFail(CopyError::SizeMismatch { expected, copied: n }),
                )
            },
            None => (CopyState::Failed, CopyAction::RemoveTemporaryThenFail(CopyError::CopyFailed)),
        },
        (CopyState::Comparing { expected }, CopyEvent::Compared(equal)) => match equal {
            Some(true) => (CopyState::Renaming, CopyAction::RenameToTarget),
            Some(false) => (CopyState::Failed, CopyAction::RemoveTemporaryThenFail(CopyError::ContentsDiffer)),
            None => (CopyState::Failed, CopyAction::RemoveTemporaryThenFail(CopyError::CompareFailed)),
        },
        (CopyState::Renaming, CopyEvent::Renamed(ok)) => if ok {
            (CopyState::Finished, CopyAction::Done)
        } else {
            (CopyState::Failed, CopyAction::RemoveTemporaryThenFail(CopyError::RenameFailed))
        },
        _ => if copy_in_progress(state) {
            (CopyState::Failed, CopyAction::RemoveTemporaryThenFail(CopyError::UnexpectedEvent))
        } else {
            (CopyState::Failed, CopyAction::Fail(CopyError::UnexpectedEvent))
        },
    }
}

/// One step of a verified copy; see `copy_verified_spec`.
pub fn copy_verified_step(state: CopyState, event: CopyEvent) -> (r: (CopyState, CopyAction))
    ensures
        r == copy_verified_spec(state, event),
{
    match (state, event) {
        (CopyState::Ready, CopyEvent::Start { target_exists, temporary_exists }) => if target_exists {
            (CopyState::Failed, CopyAction::Fail(CopyError::TargetExists))
        } else if temporary_exists {
            (CopyState::ClearingTemporary, CopyAction::ClearTemporary)
        } else {
            (CopyState::InspectingSource, CopyAction::InspectSource)
        },
        (CopyState::ClearingTemporary, CopyEvent::TemporaryCleared(ok)) => if ok {
            (CopyState::InspectingSource, CopyAction::InspectSource)
        } else {
            (CopyState::Failed, CopyAction::Fail(CopyError::StaleTemporary))
        },
        (CopyState::InspectingSource, CopyEvent::SourceLength(len)) => match len {
            Some(n) => (CopyState::Copying { expected: n }, CopyAction::CopyToTemporary),
            None => (CopyState::Failed, CopyAction::RemoveTemporaryThenFail(CopyError::SourceUnreadable)),
        },
        (CopyState::Copying { expected }, CopyEvent::Copied(copied)) => match copied {
            Some(n) => if n == expected {
                (CopyState::Comparing { expected }, CopyAction::CompareTemporary)
            } else {
                (
                    CopyState::Failed,
                    CopyAction::RemoveTemporaryThenFail(CopyError::SizeMismatch { expected, copied: n }),
                )
            },
            None => (CopyState::Failed, CopyAction::RemoveTemporaryThenFail(CopyError::CopyFailed)),
        },
        (CopyState::Comparing { expected }, CopyEvent::Compared(equal)) => match equal {
            Some(true) => (CopyState::Renaming, CopyAction::RenameToTarget),
            Some(false) => (CopyState::Failed, CopyAction::RemoveTemporaryThenFail(CopyError::ContentsDiffer)),
            None => (CopyState::Failed, CopyAction::RemoveTemporaryThenFail(CopyError::CompareFailed)),
        },
        (CopyState::Renaming, CopyEvent::Renamed(ok)) => if ok {
            (CopyState::Finished, CopyAction::Done)
        } else {
            (CopyState::Failed, CopyAction::RemoveTemporaryThenFail(CopyError::RenameFailed))
        },
        _ => {
            let in_progress = match state {
                CopyState::InspectingSource | CopyState::Copying { .. } | CopyState::Comparing { .. }
                | CopyState::Renaming => true,
                _ => false,
            };
            if in_progress {
                (CopyState::Failed, CopyAction::RemoveTemporaryThenFail(CopyError::UnexpectedEvent))
            } else {
                (CopyState::Failed, CopyAction::Fail(CopyError::UnexpectedEvent))
            }
        },
    }
}

/// The state after feeding `events` to a copy that starts `Ready`.
pub open spec fn copy_run(events: Seq<CopyEvent>) -> CopyState
    decreases events.len(),
{
    if events.len() == 0 {
        CopyState::Ready
    } else {
        copy_verified_spec(copy_run(events.drop_last()), events.last()).0
    }
}

/// The action the last of `events` gets.
pub open spec fn copy_last_action(events: Seq<CopyEvent>) -> CopyAction
    recommends
        events.len() > 0,
{
    copy_verified_spec(copy_run(events.drop_last()), events.last()).1
}

/// `events` reported the source's length `n`, then a copy of `n` bytes, in that order.
pub open spec fn copied_whole_source(events: Seq<CopyEvent>, n: u64) -> bool {
    exists|i: int, j: int|
        0 <= i < j < events.len() && #[trigger] events[i] == CopyEvent::SourceLength(Some(n))
            && #[trigger] events[j] == CopyEvent::Copied(Some(n))
}

proof fn lemma_copy_progress(events: Seq<CopyEvent>)
    ensures
        copy_run(events) matches CopyState::Copying { expected } ==> exists|i: int|
            0 <= i < events.len() && #[trigger] events[i] == CopyEvent::SourceLength(Some(expected)),
        copy_run(events) matches CopyState::Comparing { expected } ==> copied_whole_source(events, expected),
        copy_run(events) is Renaming ==> events.len() > 0 && events.last() == CopyEvent::Compared(Some(true))
            && exists|n: u64| copied_whole_source(events.drop_last(), n),
    decreases events.len(),
{
    if events.len() > 0 {
        let prefix = events.drop_last();
        let e = events.last();
        let last = events.len() - 1;
        lemma_copy_progress(prefix);
        assert(events[last] == e);
        assert forall|i: int| 0 <= i < prefix.len() implies events[i] == #[trigger] prefix[i] by {}
        let before = copy_run(prefix);
        match copy_run(events) {
            CopyState::Copying { expected } => {
                assert(e == CopyEvent::SourceLength(Some(expected)));
            },
            CopyState::Comparing { expected } => {
                assert(before == CopyState::Copying { expected });
                assert(e == CopyEvent::Copied(Some(expected)));
                let i = choose|i: int| 0 <= i < prefix.len() && #[trigger] prefix[i] == CopyEvent::SourceLength(Some(expected));
                assert(events[i] == CopyEvent::SourceLength(Some(expected)));
            },
            CopyState::Renaming => {
                let expected = before->Comparing_expected;
                assert(before is Comparing);
                assert(copied_whole_source(prefix, expected));
            },
            _ => {},
        }
    }
}

/// Law (byte-verified copies): the rename into place is asked for only right
/// after the bytes compared equal, and only after the source's length `n` was
/// read and a copy of exactly `n` bytes was made, in that order.
pub proof fn lemma_rename_only_after_verified_copy(events: Seq<CopyEvent>)
    requires
        events.len() > 0,
        copy_last_action(events) == CopyAction::RenameToTarget,
    ensures
        events.last() == CopyEvent::Compared(Some(true)),
        exists|n: u64| copied_whole_source(events.drop_last(), n),
{
    let prefix = events.drop_last();
    lemma_copy_progress(prefix);
    let expected = copy_run(prefix)->Comparing_expected;
    assert(copy_run(prefix) is Comparing);
    assert(copied_whole_source(prefix, expected));
}

/// Law (a reported success is a verified copy): the copy is reported done only
/// right after the rename succeeded, and that rename was asked for only after
/// the bytes compared equal and a copy of exactly the source's length was made.
pub proof fn lemma_done_only_after_verified_copy(events: Seq<CopyEvent>)
    requires
        events.len() > 0,
        copy_last_action(events) == CopyAction::Done,
    ensures
        events.last() == CopyEvent::Renamed(true),
        events.drop_last().len() > 0,
        events.drop_last().last() == CopyEvent::Compared(Some(true)),
        exists|n: u64| copied_whole_source(events.drop_last().drop_last(), n),
{
    lemma_copy_progress(events.drop_last());
}

/// Law: the copy is reported done only right after the rename succeeded, and
/// every failure once the copy is under way removes the temporary file first.
pub proof fn lemma_copy_outcomes(state: CopyState, event: CopyEvent)
    ensures
        copy_verified_spec(state, event).1 == CopyAction::Done ==> state == CopyState::Renaming && event
            == CopyEvent::Renamed(true),
        copy_in_progress(state) ==> !(copy_verified_spec(state, event).1 is Fail),
        copy_in_progress(state) && copy_verified_spec(state, event).0 == CopyState::Failed
            ==> copy_verified_spec(state, event).1 is RemoveTemporaryThenFail,
{
}

} // verus!
