//! Backups of the agents configuration: the files `AGENTS.md.<time>.backup`,
//! listed newest first with their size and version.

use vstd::prelude::*;
use vstd::utf8::encode_utf8;

use crate::agent_config::{config_version, is_backup_name};
use crate::sequence_graph::{hex_lower, sha256_spec};
use crate::strings::{chars_vec, concat2, string_of};
use crate::ws_url::{str_ends_with, str_starts_with};

verus! {

/// The format of the time inside a backup's file name.
pub const BACKUP_TIME_FORMAT: &'static str = "%Y-%m-%d-%H%M%S";

/// What `chrono::NaiveDateTime::parse_from_str` yields for a text and a
/// format: the Unix seconds and sub-second nanoseconds of the date and time
/// read as UTC, or `None` when the text does not match the format.
pub uninterp spec fn naive_utc_parse(text: Seq<char>, format: Seq<char>) -> Option<(i64, u32)>;

/// `chrono::NaiveDateTime::parse_from_str`, read as a UTC time.
#[verifier::external_body]
fn parse_naive_utc(text: &str, format: &str) -> (r: Option<(i64, u32)>)
    ensures
        r == naive_utc_parse(text@, format@),
{
    match chrono::NaiveDateTime::parse_from_str(text, format) {
        Ok(dt) => Some((dt.and_utc().timestamp(), dt.and_utc().timestamp_subsec_nanos())),
        Err(_) => None,
    }
}

/// What `chrono::DateTime::<Utc>::from_timestamp(secs, nanos)` formatted with
/// `format` gives, or `None` when the time is outside chrono's range.
pub uninterp spec fn utc_formatted(secs: i64, nanos: u32, format: Seq<char>) -> Option<Seq<char>>;

/// `chrono::DateTime::<Utc>::from_timestamp`, then `format(..).to_string()`.
/// Only the backup time format is accepted: formatting panics on a format
/// that chrono cannot render.
#[verifier::external_body]
fn format_utc(secs: i64, nanos: u32, format: &str) -> (r: Option<String>)
    requires
        format@ == BACKUP_TIME_FORMAT@,
    ensures
        utc_formatted(secs, nanos, format@) == match r {
            Some(t) => Some(t@),
            None => None::<Seq<char>>,
        },
{
    match chrono::DateTime::from_timestamp(secs, nanos) {
        Some(t) => Some(t.format(format).to_string()),
        None => None,
    }
}

/// The file name of a backup made at time `now`: `AGENTS.md.<time>.backup`,
/// or `None` when `now` is outside chrono's range.
pub fn backup_file_name(now: (i64, u32)) -> (r: Option<String>)
    ensures
        match utc_formatted(now.0, now.1, BACKUP_TIME_FORMAT@) {
            Some(t) => r matches Some(n) && n@ == "AGENTS.md."@ + t + ".backup"@,
            None => r is None,
        },
{
    match format_utc(now.0, now.1, BACKUP_TIME_FORMAT) {
        Some(t) => {
            let n = concat2("AGENTS.md.", t.as_str());
            Some(n.concat(".backup"))
        },
        None => None,
    }
}

/// The time text of a backup's name: what lies between `AGENTS.md.` and
/// `.backup`, or nothing when the two overlap.
pub open spec fn stamp_text(name: Seq<char>) -> Seq<char> {
    if name.len() >= 17 {
        name.subrange(10, name.len() - 7)
    } else {
        Seq::empty()
    }
}

/// The time of a backup: the one in its name, or `now` when the name holds
/// none that parses.
pub open spec fn backup_time(name: Seq<char>, now: (i64, u32)) -> (i64, u32) {
    match naive_utc_parse(stamp_text(name), BACKUP_TIME_FORMAT@) {
        Some(t) => t,
        None => now,
    }
}

/// Whether time `a` is later than time `b`.
pub open spec fn later(a: (i64, u32), b: (i64, u32)) -> bool {
    a.0 > b.0 || (a.0 == b.0 && a.1 > b.1)
}

/// A directory entry: file name, size in bytes, and its text when it could
/// be read.
pub type BackupEntry = (String, u64, Option<String>);

/// Whether an entry is listed: a backup's name whose text could be read.
pub open spec fn listed(e: BackupEntry) -> bool {
    is_backup_name(e.0@) && e.2 is Some
}

/// Whether entry `k` is listed ahead of entry `i`: it is listed and newer,
/// or as new and given earlier.
pub open spec fn listed_before(es: Seq<BackupEntry>, now: (i64, u32), k: int, i: int) -> bool {
    let tk = backup_time(es[k].0@, now);
    let ti = backup_time(es[i].0@, now);
    listed(es[k]) && (later(tk, ti) || (k < i && tk == ti))
}

/// How many of the first `n` entries are listed ahead of entry `i`.
pub open spec fn listing_rank(es: Seq<BackupEntry>, now: (i64, u32), n: int, i: int) -> nat
    decreases n,
{
    if n <= 0 {
        0
    } else {
        listing_rank(es, now, n - 1, i) + if listed_before(es, now, n - 1, i) {
            1nat
        } else {
            0nat
        }
    }
}

/// How many of the first `n` entries are listed.
pub open spec fn listed_count(es: Seq<BackupEntry>, n: int) -> nat
    decreases n,
{
    if n <= 0 {
        0
    } else {
        listed_count(es, n - 1) + if listed(es[n - 1]) {
            1nat
        } else {
            0nat
        }
    }
}

/// A backup as listed.
#[derive(Debug, Clone, PartialEq, Eq)]
pub struct ConfigBackup {
    pub filename: String,
    /// The backup's time: Unix seconds.
    pub timestamp_secs: i64,
    /// The backup's time: nanoseconds within the second.
    pub timestamp_nanos: u32,
    pub size: u64,
    /// The version of the backed-up text.
    pub version: String,
}

impl View for ConfigBackup {
    type V = (Seq<char>, (i64, u32), u64, Seq<char>);

    open spec fn view(&self) -> Self::V {
        (self.filename@, (self.timestamp_secs, self.timestamp_nanos), self.size, self.version@)
    }
}

/// The listing of a listed entry: name, time, size and the version of its text.
pub open spec fn backup_of(e: BackupEntry, now: (i64, u32)) -> (Seq<char>, (i64, u32), u64, Seq<char>) {
    (e.0@, backup_time(e.0@, now), e.1, hex_lower(sha256_spec(encode_utf8(e.2->0@))))
}

proof fn lemma_rank_below_count(es: Seq<BackupEntry>, now: (i64, u32), n: int, i: int)
    requires
        0 <= i < es.len(),
        n <= es.len(),
        listed(es[i]),
    ensures
        listing_rank(es, now, n, i) + (if 0 <= i < n {
            1int
        } else {
            0int
        }) <= listed_count(es, n),
    decreases n,
{
    if n > 0 {
        lemma_rank_below_count(es, now, n - 1, i);
    }
}

proof fn lemma_rank_grows(es: Seq<BackupEntry>, now: (i64, u32), n: int, j: int, i: int)
    requires
        0 <= i < es.len(),
        0 <= j < es.len(),
        n <= es.len(),
        listed_before(es, now, j, i),
    ensures
        listing_rank(es, now, n, j) + (if 0 <= j < n {
            1int
        } else {
            0int
        }) <= listing_rank(es, now, n, i),
    decreases n,
{
    if n > 0 {
        lemma_rank_grows(es, now, n - 1, j, i);
    }
}

/// The listing is newest first, and backups of the same time keep the order
/// in which they were given: an entry listed ahead of another gets the
/// earlier position, and every listed entry gets a position of its own
/// within the listing.
pub proof fn lemma_listing_order(es: Seq<BackupEntry>, now: (i64, u32), i: int, j: int)
    requires
        0 <= i < es.len(),
        0 <= j < es.len(),
        listed(es[i]),
        listed(es[j]),
    ensures
        listing_rank(es, now, es.len() as int, i) < listed_count(es, es.len() as int),
        listed_before(es, now, j, i) ==> listing_rank(es, now, es.len() as int, j) < listing_rank(
            es,
            now,
            es.len() as int,
            i,
        ),
        i != j ==> listing_rank(es, now, es.len() as int, j) != listing_rank(es, now, es.len() as int, i),
{
    let n = es.len() as int;
    lemma_rank_below_count(es, now, n, i);
    if listed_before(es, now, j, i) {
        lemma_rank_grows(es, now, n, j, i);
    }
    if i != j {
        if listed_before(es, now, i, j) {
            lemma_rank_grows(es, now, n, i, j);
        } else {
            assert(listed_before(es, now, j, i));
            lemma_rank_grows(es, now, n, j, i);
        }
    }
}

/// The time text of a backup's name.
fn stamp_text_of(name: &str) -> (r: String)
    ensures
        r@ == stamp_text(name@),
{
    let v = chars_vec(name);
    if v.len() >= 17 {
        string_of(v.as_slice(), 10, v.len() - 7)
    } else {
        String::new()
    }
}

/// Whether a file name is that of a configuration backup.
pub fn is_backup_file(name: &str) -> (r: bool)
    ensures
        r == is_backup_name(name@),
{
    str_starts_with(name, "AGENTS.md.") && str_ends_with(name, ".backup")
}

/// The backups among directory entries, newest first by the time in their
/// names (`now` for a name without one); backups of the same time keep the
/// order given. Entries whose text could not be read are left out.
pub fn list_backups(entries: &[BackupEntry], now: (i64, u32)) -> (r: Vec<ConfigBackup>)
    ensures
        r@.len() == listed_count(entries@, entries@.len() as int),
        forall|i: int|
            0 <= i < entries@.len() && listed(#[trigger] entries@[i]) ==> r@[listing_rank(
                entries@,
                now,
                entries@.len() as int,
                i,
            ) as int]@ == backup_of(entries@[i], now),
{
    let n = entries.len();
    let ghost es = entries@;
    let mut times: Vec<(i64, u32)> = Vec::new();
    let mut flags: Vec<bool> = Vec::new();
    let mut count: usize = 0;
    let mut k: usize = 0;
    while k < n
        invariant
            k <= n,
            n == es.len(),
            es == entries@,
            times@.len() == k,
            flags@.len() == k,
            count == listed_count(es, k as int),
            count <= k,
            forall|j: int| 0 <= j < k ==> (#[trigger] times@[j]) == backup_time(es[j].0@, now),
            forall|j: int| 0 <= j < k ==> (#[trigger] flags@[j]) == listed(es[j]),
        decreases n - k,
    {
        let stamp = stamp_text_of(entries[k].0.as_str());
        let t = match parse_naive_utc(stamp.as_str(), BACKUP_TIME_FORMAT) {
            Some(t) => t,
            None => now,
        };
        let f = is_backup_file(entries[k].0.as_str()) && entries[k].2.is_some();
        times.push(t);
        flags.push(f);
        if f {
            count = count + 1;
        }
        k = k + 1;
    }
    let mut r: Vec<ConfigBackup> = Vec::new();
    let mut p: usize = 0;
    while p < count
        invariant
            p <= count,
            r@.len() == p,
        decreases count - p,
    {
        r.push(ConfigBackup {
            filename: String::new(),
            timestamp_secs: 0,
            timestamp_nanos: 0,
            size: 0,
            version: String::new(),
        });
        p = p + 1;
    }
    let mut i: usize = 0;
    while i < n
        invariant
            i <= n,
            n == es.len(),
            es == entries@,
            times@.len() == n,
            flags@.len() == n,
            r@.len() == count,
            count == listed_count(es, n as int),
            forall|j: int| 0 <= j < n ==> (#[trigger] times@[j]) == backup_time(es[j].0@, now),
            forall|j: int| 0 <= j < n ==> (#[trigger] flags@[j]) == listed(es[j]),
            forall|j: int|
                0 <= j < i && listed(#[trigger] es[j]) ==> r@[listing_rank(es, now, n as int, j) as int]@
                    == backup_of(es[j], now),
        decreases n - i,
    {
        if flags[i] {
            let ti = times[i];
            let mut ahead: usize = 0;
            let mut k: usize = 0;
            while k < n
                invariant
                    k <= n,
                    i < n,
                    n == es.len(),
                    times@.len() == n,
                    flags@.len() == n,
                    ti == times@[i as int],
                    forall|j: int| 0 <= j < n ==> (#[trigger] times@[j]) == backup_time(es[j].0@, now),
                    forall|j: int| 0 <= j < n ==> (#[trigger] flags@[j]) == listed(es[j]),
                    ahead == listing_rank(es, now, k as int, i as int),
                    ahead <= k,
                decreases n - k,
            {
                let tk = times[k];
                let newer = tk.0 > ti.0 || (tk.0 == ti.0 && tk.1 > ti.1);
                let same = tk.0 == ti.0 && tk.1 == ti.1;
                if flags[k] && (newer || (k < i && same)) {
                    ahead = ahead + 1;
                }
                k = k + 1;
            }
            proof {
                lemma_listing_order(es, now, i as int, i as int);
            }
            let content = match &entries[i].2 {
                Some(c) => c,
                None => {
                    proof {
                        assert(false);
                    }
                    return r;
                },
            };
            let b = ConfigBackup {
                filename: entries[i].0.clone(),
                timestamp_secs: ti.0,
                timestamp_nanos: ti.1,
                size: entries[i].1,
                version: config_version(content.as_str()),
            };
            let ghost before = r@;
            r.set(ahead, b);
            proof {
                assert forall|j: int|
                    0 <= j < i + 1 && listed(#[trigger] es[j]) implies r@[listing_rank(
                    es,
                    now,
                    n as int,
                    j,
                ) as int]@ == backup_of(es[j], now) by {
                    if j < i {
                        lemma_listing_order(es, now, i as int, j);
                        lemma_listing_order(es, now, j, i as int);
                        assert(ahead == listing_rank(es, now, n as int, i as int));
                        assert(r@ == before.update(ahead as int, b));
                        assert(r@[listing_rank(es, now, n as int, j) as int] == before[listing_rank(
                            es,
                            now,
                            n as int,
                            j,
                        ) as int]);
                    }
                }
            }
        }
        i = i + 1;
    }
    r
}

} // verus!
