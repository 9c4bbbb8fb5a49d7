//! Backup policy: how many backups are kept, which old ones are removed,
//! when an automatic backup is due, and the backup preferences.
use vstd::prelude::*;
use vstd::set_lib::*;
use crate::errors::PlannerError;
use crate::numbers::{decimal, decimal_text, lemma_decimal_round_trip, parse_unsigned, parse_unsigned_text, parse_usize};
use crate::yuque::Json;
use crate::text::{str_chars, str_eq};

verus! {

/// Backups kept when no valid setting says otherwise.
pub const DEFAULT_RETAIN: usize = 7;

/// The fewest backups that are kept.
pub const MIN_RETAIN: usize = 1;

/// The most backups that are kept.
pub const MAX_RETAIN: usize = 50;

/// Seconds between daily automatic backups.
pub const DAY_SECONDS: u64 = 86400;

/// Seconds between weekly automatic backups.
pub const WEEK_SECONDS: u64 = 604800;

pub open spec fn clamp(n: nat, lo: nat, hi: nat) -> nat {
    if n < lo {
        lo
    } else if n > hi {
        hi
    } else {
        n
    }
}

/// The stored retention setting read as a count: the stored number, or 7
/// when there is none or it is not a `usize`.
pub open spec fn retain_setting(setting: Option<String>) -> nat {
    match setting {
        Some(s) => match parse_unsigned(s@, usize::MAX as nat) {
            Some(v) => v,
            None => DEFAULT_RETAIN as nat,
        },
        None => DEFAULT_RETAIN as nat,
    }
}

/// The retention count shown among the preferences: the stored setting,
/// not clamped.
pub fn preferred_retain(setting: Option<String>) -> (n: usize)
    ensures
        n == retain_setting(setting),
{
    match setting {
        Some(s) => match parse_usize(s.as_str()) {
            Some(v) => v,
            None => DEFAULT_RETAIN,
        },
        None => DEFAULT_RETAIN,
    }
}

/// A retention count brought into the allowed range, 1 to 50.
pub fn clamp_retain(n: usize) -> (r: usize)
    ensures
        r == clamp(n as nat, MIN_RETAIN as nat, MAX_RETAIN as nat),
        MIN_RETAIN <= r <= MAX_RETAIN,
{
    if n < MIN_RETAIN {
        MIN_RETAIN
    } else if n > MAX_RETAIN {
        MAX_RETAIN
    } else {
        n
    }
}

/// How many backups a backup run keeps: the stored setting, clamped to 1..=50.
pub fn backup_retain_count(setting: Option<String>) -> (n: usize)
    ensures
        n == clamp(retain_setting(setting), MIN_RETAIN as nat, MAX_RETAIN as nat),
        MIN_RETAIN <= n <= MAX_RETAIN,
{
    let stored = preferred_retain(setting);
    clamp_retain(stored)
}

pub open spec fn is_backup_mode(mode: Seq<char>) -> bool {
    mode == "off"@ || mode == "daily"@ || mode == "weekly"@
}

/// What saving the backup preferences stores: the mode, which must be
/// `off`, `daily` or `weekly`, and the retention count clamped to 1..=50.
pub fn backup_preferences_update(mode: &str, retain: usize) -> (r: Result<usize, PlannerError>)
    ensures
        is_backup_mode(mode@) ==> r == Ok::<usize, PlannerError>(
            clamp(retain as nat, MIN_RETAIN as nat, MAX_RETAIN as nat) as usize,
        ),
        !is_backup_mode(mode@) ==> r == Err::<usize, PlannerError>(PlannerError::InvalidBackupMode),
{
    if str_eq(mode, "off") || str_eq(mode, "daily") || str_eq(mode, "weekly") {
        Ok(clamp_retain(retain))
    } else {
        Err(PlannerError::InvalidBackupMode)
    }
}

/// The backup mode in force: the stored one, or `daily` when none is stored.
pub open spec fn effective_mode(setting: Option<String>) -> Seq<char> {
    match setting {
        Some(m) => m@,
        None => "daily"@,
    }
}

/// The backup mode in force, as the preferences show it.
pub fn backup_mode(setting: Option<String>) -> (m: String)
    ensures
        m@ == effective_mode(setting),
{
    match setting {
        Some(m) => m,
        None => "daily".to_owned(),
    }
}

/// Seconds between automatic backups in a mode: a week for `weekly`, a day otherwise.
pub open spec fn backup_interval(mode: Seq<char>) -> nat {
    if mode == "weekly"@ {
        WEEK_SECONDS as nat
    } else {
        DAY_SECONDS as nat
    }
}

/// When the last automatic backup ran: the stored time, or 0 when none is
/// stored or it is not a `u64`.
pub open spec fn last_backup_time(setting: Option<String>) -> nat {
    match setting {
        Some(s) => match parse_unsigned(s@, u64::MAX as nat) {
            Some(v) => v,
            None => 0,
        },
        None => 0,
    }
}

pub open spec fn saturating_sub(a: nat, b: nat) -> nat {
    if a >= b {
        (a - b) as nat
    } else {
        0
    }
}

/// An automatic backup is due unless the mode is `off` or less than one
/// interval has passed since the last one.
pub open spec fn auto_backup_due_at(mode: Option<String>, now: nat, last: Option<String>) -> bool {
    let m = effective_mode(mode);
    m != "off"@ && saturating_sub(now, last_backup_time(last)) >= backup_interval(m)
}

/// Whether automatic backups are on: the mode is not `off`. When they are
/// off the clock need not be read at all.
pub fn auto_backup_enabled(mode: Option<String>) -> (on: bool)
    ensures
        on == (effective_mode(mode) != "off"@),
{
    let m = backup_mode(mode);
    !str_eq(m.as_str(), "off")
}

/// Whether an automatic backup is due at time `now` (seconds since the epoch).
pub fn auto_backup_due(mode: Option<String>, now: u64, last: Option<String>) -> (due: bool)
    ensures
        due == auto_backup_due_at(mode, now as nat, last),
{
    proof {
        reveal_strlit("daily");
        reveal_strlit("off");
        reveal_strlit("weekly");
    }
    let m = backup_mode(mode);
    if str_eq(m.as_str(), "off") {
        return false;
    }
    let last_time: u64 = match last {
        Some(s) => match parse_unsigned_text(s.as_str(), u64::MAX) {
            Some(v) => v,
            None => 0,
        },
        None => 0,
    };
    let interval = if str_eq(m.as_str(), "weekly") {
        WEEK_SECONDS
    } else {
        DAY_SECONDS
    };
    let elapsed = if now >= last_time {
        now - last_time
    } else {
        0
    };
    elapsed >= interval
}

/// Once an automatic backup is due it stays due as time passes.
pub proof fn lemma_auto_backup_due_stays_due(
    mode: Option<String>,
    now: nat,
    later: nat,
    last: Option<String>,
)
    requires
        now <= later,
        auto_backup_due_at(mode, now, last),
    ensures
        auto_backup_due_at(mode, later, last),
{
}

/// With the mode `off` no automatic backup is ever due.
pub proof fn lemma_auto_backup_off(mode: String, now: nat, last: Option<String>)
    requires
        mode@ == "off"@,
    ensures
        !auto_backup_due_at(Some(mode), now, last),
{
}

/// The retention count that saving the preferences stores (as its decimal
/// text) is the count that the preferences and the next backup run read back.
pub proof fn lemma_saved_retention_reads_back(retain: usize, stored: String)
    requires
        stored@ == decimal(clamp(retain as nat, MIN_RETAIN as nat, MAX_RETAIN as nat)),
    ensures
        retain_setting(Some(stored)) == clamp(retain as nat, MIN_RETAIN as nat, MAX_RETAIN as nat),
        clamp(retain_setting(Some(stored)), MIN_RETAIN as nat, MAX_RETAIN as nat) == clamp(
            retain as nat,
            MIN_RETAIN as nat,
            MAX_RETAIN as nat,
        ),
{
    lemma_decimal_round_trip(
        clamp(retain as nat, MIN_RETAIN as nat, MAX_RETAIN as nat),
        usize::MAX as nat,
    );
}

/// Once an automatic backup has run at `now` and that time is stored (as
/// its decimal text), the next one is due exactly when a full interval has
/// passed, unless backups are off.
pub proof fn lemma_next_auto_backup_after_interval(
    mode: Option<String>,
    now: u64,
    stored: String,
    later: nat,
)
    requires
        stored@ == decimal(now as nat),
        now <= later,
    ensures
        auto_backup_due_at(mode, later, Some(stored)) == (effective_mode(mode) != "off"@ && later
            >= now + backup_interval(effective_mode(mode))),
{
    lemma_decimal_round_trip(now as nat, u64::MAX as nat);
}

// ---------------------------------------------------------------------
// Which old backups a run removes.
// ---------------------------------------------------------------------

/// Lexicographic order of texts by code point, the order of their UTF-8
/// bytes, in which backup directories are sorted.
pub open spec fn lex_lt(a: Seq<char>, b: Seq<char>) -> bool
    decreases a.len(),
{
    if a.len() == 0 {
        b.len() > 0
    } else if b.len() == 0 {
        false
    } else if a[0] != b[0] {
        (a[0] as int) < (b[0] as int)
    } else {
        lex_lt(a.drop_first(), b.drop_first())
    }
}

/// Backup `i` comes before backup `j` in the stable sort by name.
pub open spec fn entry_before(names: Seq<Seq<char>>, i: int, j: int) -> bool {
    lex_lt(names[i], names[j]) || (names[i] == names[j] && i < j)
}

pub open spec fn names_of(names: Seq<String>) -> Seq<Seq<char>> {
    names.map_values(|s: String| s@)
}

/// `removed` lists, in sorted order, the backups that are left over once the
/// last `retain` of the sorted backups are kept.
pub open spec fn is_retention_removal(names: Seq<Seq<char>>, retain: nat, removed: Seq<usize>) -> bool {
    &&& removed.len() == saturating_sub(names.len(), retain)
    &&& removed.no_duplicates()
    &&& forall|k: int| 0 <= k < removed.len() ==> #[trigger] removed[k] < names.len()
    &&& forall|k1: int, k2: int|
        0 <= k1 < k2 < removed.len() ==> entry_before(
            names,
            #[trigger] removed[k1] as int,
            #[trigger] removed[k2] as int,
        )
    &&& forall|k: int, j: int|
        0 <= k < removed.len() && 0 <= j < names.len() && !removed.contains(j as usize)
            ==> #[trigger] entry_before(names, removed[k] as int, j)
}

proof fn lemma_lex_irreflexive(a: Seq<char>)
    ensures
        !lex_lt(a, a),
    decreases a.len(),
{
    if a.len() > 0 {
        lemma_lex_irreflexive(a.drop_first());
    }
}

proof fn lemma_lex_transitive(a: Seq<char>, b: Seq<char>, c: Seq<char>)
    requires
        lex_lt(a, b),
        lex_lt(b, c),
    ensures
        lex_lt(a, c),
    decreases a.len(),
{
    if a.len() > 0 && b.len() > 0 && c.len() > 0 && a[0] == b[0] && b[0] == c[0] {
        lemma_lex_transitive(a.drop_first(), b.drop_first(), c.drop_first());
    }
}

proof fn lemma_lex_total(a: Seq<char>, b: Seq<char>)
    requires
        a != b,
    ensures
        lex_lt(a, b) || lex_lt(b, a),
    decreases a.len(),
{
    if a.len() > 0 && b.len() > 0 && a[0] == b[0] {
        if a.drop_first() == b.drop_first() {
            assert(a =~= seq![a[0]] + a.drop_first());
            assert(b =~= seq![b[0]] + b.drop_first());
        }
        lemma_lex_total(a.drop_first(), b.drop_first());
    } else if a.len() > 0 && b.len() > 0 && a[0] != b[0] {
        assert((a[0] as int) != (b[0] as int));
    } else if a.len() == 0 && b.len() == 0 {
        assert(a =~= b);
    }
}

proof fn lemma_entry_order(names: Seq<Seq<char>>, i: int, j: int, k: int)
    ensures
        !entry_before(names, i, i),
        entry_before(names, i, j) ==> !entry_before(names, j, i),
        i != j ==> entry_before(names, i, j) || entry_before(names, j, i),
        entry_before(names, i, j) && entry_before(names, j, k) ==> entry_before(names, i, k),
{
    lemma_lex_irreflexive(names[i]);
    lemma_lex_irreflexive(names[j]);
    if lex_lt(names[i], names[j]) && lex_lt(names[j], names[i]) {
        lemma_lex_transitive(names[i], names[j], names[i]);
    }
    if names[i] != names[j] {
        lemma_lex_total(names[i], names[j]);
    }
    if lex_lt(names[i], names[j]) && lex_lt(names[j], names[k]) {
        lemma_lex_transitive(names[i], names[j], names[k]);
    }
}

proof fn lemma_lex_skip(a: Seq<char>, b: Seq<char>, k: int)
    requires
        0 <= k <= a.len(),
        k <= b.len(),
        a.take(k) == b.take(k),
    ensures
        lex_lt(a, b) == lex_lt(a.skip(k), b.skip(k)),
    decreases k,
{
    if k == 0 {
        assert(a.skip(0) =~= a);
        assert(b.skip(0) =~= b);
    } else {
        assert(a[0] == a.take(k)[0]);
        assert(b[0] == b.take(k)[0]);
        assert(a.drop_first().take(k - 1) =~= a.take(k).drop_first());
        assert(b.drop_first().take(k - 1) =~= b.take(k).drop_first());
        lemma_lex_skip(a.drop_first(), b.drop_first(), k - 1);
        assert(a.drop_first().skip(k - 1) =~= a.skip(k));
        assert(b.drop_first().skip(k - 1) =~= b.skip(k));
    }
}

/// Whether `a` sorts strictly before `b`.
fn lex_less(a: &Vec<char>, b: &Vec<char>) -> (r: bool)
    ensures
        r == lex_lt(a@, b@),
{
    let mut k: usize = 0;
    while k < a.len() && k < b.len()
        invariant
            k <= a.len(),
            k <= b.len(),
            a@.take(k as int) == b@.take(k as int),
        decreases a.len() - k,
    {
        if a[k] != b[k] {
            proof {
                lemma_lex_skip(a@, b@, k as int);
                assert(a@.skip(k as int)[0] == a@[k as int]);
                assert(b@.skip(k as int)[0] == b@[k as int]);
            }
            return a[k] < b[k];
        }
        assert(a@.take(k + 1) =~= a@.take(k as int).push(a@[k as int]));
        assert(b@.take(k + 1) =~= b@.take(k as int).push(b@[k as int]));
        k = k + 1;
    }
    proof {
        lemma_lex_skip(a@, b@, k as int);
    }
    k == a.len() && k < b.len()
}

fn entry_before_exec(names: &Vec<Vec<char>>, i: usize, j: usize) -> (r: bool)
    requires
        i < names.len(),
        j < names.len(),
    ensures
        r == entry_before(names@.map_values(|v: Vec<char>| v@), i as int, j as int),
{
    let ghost ns = names@.map_values(|v: Vec<char>| v@);
    assert(ns[i as int] == names@[i as int]@);
    assert(ns[j as int] == names@[j as int]@);
    if lex_less(&names[i], &names[j]) {
        true
    } else {
        crate::text::chars_eq(&names[i], &names[j]) && i < j
    }
}

proof fn lemma_pigeonhole(removed: Seq<usize>, n: nat) -> (j: usize)
    requires
        removed.no_duplicates(),
        forall|k: int| 0 <= k < removed.len() ==> #[trigger] removed[k] < n,
        removed.len() < n,
        n <= usize::MAX as nat + 1,
    ensures
        j < n,
        !removed.contains(j),
{
    let s = removed.to_set().map(|x: usize| x as int);
    removed.unique_seq_to_set();
    lemma_int_range(0, n as int);
    assert(s.subset_of(set_int_range(0, n as int)));
    lemma_map_size(removed.to_set(), s, |x: usize| x as int);
    if set_int_range(0, n as int).subset_of(s) {
        lemma_len_subset(set_int_range(0, n as int), s);
        assert(false);
    }
    let w = choose|w: int| set_int_range(0, n as int).contains(w) && !s.contains(w);
    assert(!removed.contains(w as usize)) by {
        if removed.contains(w as usize) {
            assert(removed.to_set().contains(w as usize));
            assert((w as usize) as int == w);
            assert(s.contains((w as usize) as int));
        }
    }
    w as usize
}

/// The backups that a backup run removes, given the names of the backup
/// directories and how many to keep: sorted by name, all but the last
/// `retain` are removed, oldest first. The result holds indices into `names`.
pub fn backups_to_remove(names: &Vec<String>, retain: usize) -> (removed: Vec<usize>)
    ensures
        is_retention_removal(names_of(names@), retain as nat, removed@),
{
    let n = names.len();
    let mut chars: Vec<Vec<char>> = Vec::new();
    let mut i: usize = 0;
    while i < n
        invariant
            i <= n == names.len(),
            chars.len() == i,
            forall|k: int| 0 <= k < i ==> (#[trigger] chars@[k])@ == names@[k]@,
        decreases n - i,
    {
        chars.push(str_chars(names[i].as_str()));
        i = i + 1;
    }
    let ghost ns = names_of(names@);
    assert(chars@.map_values(|v: Vec<char>| v@) =~= ns);
    // Insertion sort of the indices by (name, index).
    let mut sorted: Vec<usize> = Vec::new();
    let mut j: usize = 0;
    while j < n
        invariant
            j <= n == names.len() == chars.len(),
            chars@.map_values(|v: Vec<char>| v@) == ns,
            ns.len() == n,
            sorted.len() == j,
            sorted@.no_duplicates(),
            forall|k: int| 0 <= k < sorted.len() ==> #[trigger] sorted@[k] < j,
            forall|m: usize| m < j ==> #[trigger] sorted@.contains(m),
            forall|k1: int, k2: int|
                0 <= k1 < k2 < sorted.len() ==> entry_before(
                    ns,
                    #[trigger] sorted@[k1] as int,
                    #[trigger] sorted@[k2] as int,
                ),
        decreases n - j,
    {
        let mut p: usize = 0;
        while p < sorted.len() && !entry_before_exec(&chars, j, sorted[p])
            invariant
                p <= sorted.len() == j,
                j < n == chars.len(),
                chars@.map_values(|v: Vec<char>| v@) == ns,
                forall|k: int| 0 <= k < sorted.len() ==> #[trigger] sorted@[k] < j,
                forall|k: int| 0 <= k < p ==> !entry_before(ns, j as int, #[trigger] sorted@[k] as int),
            decreases j - p,
        {
            p = p + 1;
        }
        let ghost old_sorted = sorted@;
        proof {
            assert forall|k: int| 0 <= k < p implies entry_before(ns, #[trigger] old_sorted[k] as int, j as int) by {
                lemma_entry_order(ns, old_sorted[k] as int, j as int, j as int);
            }
            assert forall|k: int| p <= k < old_sorted.len() implies entry_before(ns, j as int, #[trigger] old_sorted[k] as int) by {
                if k > p {
                    lemma_entry_order(ns, j as int, old_sorted[p as int] as int, old_sorted[k] as int);
                }
            }
        }
        sorted.insert(p, j);
        proof {
            let s = sorted@;
            assert(s =~= old_sorted.insert(p as int, j));
            assert forall|k: int| 0 <= k < s.len() implies #[trigger] s[k] < j + 1 by {
                if k < p {
                    assert(s[k] == old_sorted[k]);
                } else if k > p {
                    assert(s[k] == old_sorted[k - 1]);
                }
            }
            assert forall|m: usize| m < j + 1 implies #[trigger] s.contains(m) by {
                if m < j {
                    assert(old_sorted.contains(m));
                    let w = choose|w: int| 0 <= w < old_sorted.len() && old_sorted[w] == m;
                    if w < p {
                        assert(s[w] == old_sorted[w]);
                    } else {
                        assert(s[w + 1] == old_sorted[w]);
                    }
                } else {
                    assert(s[p as int] == j);
                }
            }
            assert forall|k1: int, k2: int| 0 <= k1 < k2 < s.len() implies entry_before(
                ns,
                #[trigger] s[k1] as int,
                #[trigger] s[k2] as int,
            ) by {
                if k1 < p && k2 < p {
                    assert(s[k1] == old_sorted[k1] && s[k2] == old_sorted[k2]);
                } else if k1 < p && k2 == p {
                    assert(s[k1] == old_sorted[k1]);
                } else if k1 < p && k2 > p {
                    assert(s[k1] == old_sorted[k1] && s[k2] == old_sorted[k2 - 1]);
                } else if k1 == p {
                    assert(s[k2] == old_sorted[k2 - 1]);
                } else {
                    assert(s[k1] == old_sorted[k1 - 1] && s[k2] == old_sorted[k2 - 1]);
                }
            }
            assert forall|k1: int, k2: int| 0 <= k1 < s.len() && 0 <= k2 < s.len() && k1 != k2 implies s[k1] != s[k2] by {
                if k1 < k2 {
                    lemma_entry_order(ns, s[k1] as int, s[k2] as int, s[k2] as int);
                } else {
                    lemma_entry_order(ns, s[k2] as int, s[k1] as int, s[k1] as int);
                }
            }
        }
        j = j + 1;
    }
    let count = if n > retain {
        n - retain
    } else {
        0
    };
    let mut removed: Vec<usize> = Vec::new();
    let mut k: usize = 0;
    while k < count
        invariant
            k <= count <= n == sorted.len(),
            removed@ == sorted@.take(k as int),
        decreases count - k,
    {
        removed.push(sorted[k]);
        assert(sorted@.take(k + 1) =~= sorted@.take(k as int).push(sorted@[k as int]));
        k = k + 1;
    }
    proof {
        let s = sorted@;
        let r = removed@;
        assert forall|k1: int, k2: int| 0 <= k1 < r.len() && 0 <= k2 < r.len() && k1 != k2 implies r[k1] != r[k2] by {
            assert(r[k1] == s[k1] && r[k2] == s[k2]);
        }
        assert forall|q: int, m: int| 0 <= q < r.len() && 0 <= m < n && !r.contains(m as usize) implies #[trigger] entry_before(
            ns,
            r[q] as int,
            m,
        ) by {
            assert(s.contains(m as usize));
            let w = choose|w: int| 0 <= w < s.len() && s[w] == m as usize;
            if w < count {
                assert(r[w] == s[w]);
                assert(r.contains(m as usize));
            }
            assert(r[q] == s[q]);
        }
        assert forall|k1: int, k2: int| 0 <= k1 < k2 < r.len() implies entry_before(
            ns,
            #[trigger] r[k1] as int,
            #[trigger] r[k2] as int,
        ) by {
            assert(r[k1] == s[k1] && r[k2] == s[k2]);
        }
    }
    removed
}

/// A backup run never removes the backup that sorts last, since at least
/// one backup is always kept.
pub proof fn lemma_retention_keeps_last(names: Seq<Seq<char>>, retain: nat, removed: Seq<usize>, last: int)
    requires
        is_retention_removal(names, retain, removed),
        retain >= MIN_RETAIN,
        names.len() <= usize::MAX,
        0 <= last < names.len(),
        forall|j: int| 0 <= j < names.len() && j != last ==> entry_before(names, j, last),
    ensures
        !removed.contains(last as usize),
{
    if removed.contains(last as usize) {
        let q = choose|q: int| 0 <= q < removed.len() && removed[q] == last as usize;
        let other = lemma_pigeonhole(removed, names.len());
        assert(entry_before(names, removed[q] as int, other as int));
        lemma_entry_order(names, last, other as int, other as int);
    }
}

/// Whether `j` is the JSON string `text`.
pub open spec fn is_json_text(j: Json, text: Seq<char>) -> bool {
    j matches Json::Str(s) && s@ == text
}

/// What a finished backup records about itself, in this order:
/// `createdAt` (the name of its directory), `schemaVersion` (that of the
/// database copied), `database` (`planner.db`) and `folders` (`notes`,
/// `daily` and `assets`).
pub open spec fn is_backup_record(j: Json, stamp: Seq<char>, schema_version: nat) -> bool {
    &&& j matches Json::Object(fields)
    &&& fields.len() == 4
    &&& fields[0].0@ == "createdAt"@ && is_json_text(fields[0].1, stamp)
    &&& fields[1].0@ == "schemaVersion"@ && (fields[1].1 matches Json::Number(n) && n@ == decimal(
        schema_version,
    ))
    &&& fields[2].0@ == "database"@ && is_json_text(fields[2].1, "planner.db"@)
    &&& fields[3].0@ == "folders"@ && (fields[3].1 matches Json::Array(items) && items.len() == 3
        && is_json_text(items[0], "notes"@) && is_json_text(items[1], "daily"@) && is_json_text(
        items[2],
        "assets"@,
    ))
}

/// The record written into a backup's directory once everything is copied.
pub fn backup_record(stamp: &str, schema_version: u64) -> (j: Json)
    ensures
        is_backup_record(j, stamp@, schema_version as nat),
{
    let folders = vec![
        Json::Str("notes".to_owned()),
        Json::Str("daily".to_owned()),
        Json::Str("assets".to_owned()),
    ];
    let fields = vec![
        ("createdAt".to_owned(), Json::Str(stamp.to_owned())),
        ("schemaVersion".to_owned(), Json::Number(decimal_text(schema_version as u128))),
        ("database".to_owned(), Json::Str("planner.db".to_owned())),
        ("folders".to_owned(), Json::Array(folders)),
    ];
    Json::Object(fields)
}

} // verus!
