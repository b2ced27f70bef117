//! Database backups: what a backup file is called, which files in the
//! backup directory are backups, and which of them a cleanup removes so that
//! only the newest ones stay.
use crate::text::text_is;
use vstd::prelude::*;

verus! {

/// Hours between two backups.
pub const BACKUP_INTERVAL_IN_HOURS: u64 = 48;

/// How many backups a cleanup keeps.
pub const NUMBER_OF_BACKUPS_TO_KEEP: usize = 10;

/// Seconds between two backups.
pub fn backup_interval_secs() -> (r: u64)
    ensures
        r == BACKUP_INTERVAL_IN_HOURS * 60 * 60,
{
    BACKUP_INTERVAL_IN_HOURS * 60 * 60
}

/// "{backups_dir}/backup_{timestamp}.db".
pub fn backup_file_name(backups_dir: &str, timestamp: &str) -> (r: String)
    ensures
        r@ == backups_dir@ + "/backup_"@ + timestamp@ + ".db"@,
{
    let mut r = String::from_str(backups_dir);
    r.append("/backup_");
    r.append(timestamp);
    r.append(".db");
    r
}

/// What the directory listing tells of one entry: whether it is a file, its
/// extension, and its modification time in nanoseconds since the epoch, when
/// these could be read.
#[derive(Clone, Debug, PartialEq, Eq)]
pub struct DirEntryInfo {
    pub path: String,
    pub is_file: bool,
    pub extension: Option<String>,
    pub modified: Option<u128>,
}

/// A backup file and its modification time.
#[derive(Clone, Debug, PartialEq, Eq)]
pub struct BackupFile {
    pub modified: u128,
    pub path: String,
}

/// An entry counts as a backup when it is a file with extension "db" whose
/// modification time could be read.
pub open spec fn is_backup(e: DirEntryInfo) -> bool {
    &&& e.is_file
    &&& e.extension matches Some(x) && x@ == "db"@
    &&& e.modified is Some
}

/// The backups among `entries`, in listing order.
pub open spec fn backup_files(entries: Seq<DirEntryInfo>) -> Seq<BackupFile>
    decreases entries.len(),
{
    if entries.len() == 0 {
        Seq::empty()
    } else {
        let before = backup_files(entries.drop_last());
        let e = entries.last();
        if is_backup(e) {
            before.push(BackupFile { modified: e.modified->0, path: e.path })
        } else {
            before
        }
    }
}

/// The backups among `entries`, in listing order.
pub fn collect_backups(entries: &Vec<DirEntryInfo>) -> (r: Vec<BackupFile>)
    ensures
        r@ == backup_files(entries@),
{
    let n = entries.len();
    let mut r: Vec<BackupFile> = Vec::new();
    let mut i: usize = 0;
    while i < n
        invariant
            n == entries@.len(),
            i <= n,
            r@ == backup_files(entries@.take(i as int)),
        decreases n - i,
    {
        let e = &entries[i];
        let db = match &e.extension {
            Some(x) => text_is(x.as_str(), "db"),
            None => false,
        };
        assert(entries@.take(i + 1).drop_last() =~= entries@.take(i as int));
        if e.is_file && db && e.modified.is_some() {
            r.push(BackupFile { modified: e.modified.unwrap(), path: e.path.clone() });
        }
        i = i + 1;
    }
    assert(entries@.take(n as int) =~= entries@);
    r
}

/// Backup `i` is older than backup `j`: modified earlier, or at the same time
/// and listed earlier.
pub open spec fn older(b: Seq<BackupFile>, i: int, j: int) -> bool {
    b[i].modified < b[j].modified || (b[i].modified == b[j].modified && i < j)
}

/// How many of `n` backups a cleanup keeping `keep` removes.
pub open spec fn excess(n: int, keep: int) -> int {
    if n > keep {
        n - keep
    } else {
        0
    }
}

/// The backups to remove so that `keep` stay, as positions in `backups`,
/// oldest first: the removed ones are the oldest, and every backup that stays
/// is newer than every one removed.
pub fn backups_to_remove(backups: &Vec<BackupFile>, keep: usize) -> (r: Vec<usize>)
    ensures
        r@.len() == excess(backups@.len() as int, keep as int),
        forall|m: int| 0 <= m < r@.len() ==> (#[trigger] r@[m]) < backups@.len(),
        forall|m1: int, m2: int|
            0 <= m1 < m2 < r@.len() ==> older(backups@, #[trigger] r@[m1] as int, #[trigger] r@[m2] as int),
        forall|m: int, q: int|
            0 <= m < r@.len() && 0 <= q < backups@.len() && !r@.contains(q as usize) ==> #[trigger] older(
                backups@,
                r@[m] as int,
                q,
            ),
{
    let n = backups.len();
    let target: usize = if n > keep {
        n - keep
    } else {
        0
    };
    let mut chosen: Vec<bool> = Vec::new();
    let mut k: usize = 0;
    while k < n
        invariant
            k <= n,
            chosen@.len() == k,
            forall|q: int| 0 <= q < k ==> !(#[trigger] chosen@[q]),
        decreases n - k,
    {
        chosen.push(false);
        k = k + 1;
    }
    let mut r: Vec<usize> = Vec::new();
    while r.len() < target
        invariant
            n == backups@.len(),
            target == excess(n as int, keep as int),
            target <= n,
            chosen@.len() == n,
            r@.len() <= target,
            forall|m: int| 0 <= m < r@.len() ==> (#[trigger] r@[m]) < n,
            forall|q: int| 0 <= q < n ==> (#[trigger] chosen@[q] <==> r@.contains(q as usize)),
            forall|m1: int, m2: int|
                0 <= m1 < m2 < r@.len() ==> older(backups@, #[trigger] r@[m1] as int, #[trigger] r@[m2] as int),
            forall|m: int, q: int|
                0 <= m < r@.len() && 0 <= q < n && !r@.contains(q as usize) ==> #[trigger] older(
                    backups@,
                    r@[m] as int,
                    q,
                ),
            forall|m1: int, m2: int| 0 <= m1 < m2 < r@.len() ==> #[trigger] r@[m1] != #[trigger] r@[m2],
        decreases target - r@.len(),
    {
        proof {
            lemma_some_unchosen(r@, n as int);
        }
        let mut best: usize = n;
        let mut i: usize = 0;
        while i < n
            invariant
                n == backups@.len(),
                chosen@.len() == n,
                i <= n,
                best == n || (best < i && !chosen@[best as int]),
                best == n ==> forall|q: int| 0 <= q < i ==> #[trigger] chosen@[q],
                best < n ==> forall|q: int|
                    0 <= q < i && !(#[trigger] chosen@[q]) && q != best ==> older(
                        backups@,
                        best as int,
                        q,
                    ),
            decreases n - i,
        {
            if !chosen[i] {
                if best == n || backups[i].modified < backups[best].modified {
                    best = i;
                }
            }
            i = i + 1;
        }
        proof {
            if best == n {
                let q = choose|q: usize| q < n && !r@.contains(q);
                assert(!chosen@[q as int]);
            }
        }
        let ghost old_r = r@;
        chosen.set(best, true);
        r.push(best);
        proof {
            assert(r@[r@.len() - 1] == best);
            assert forall|q: int| 0 <= q < n implies (#[trigger] chosen@[q] <==> r@.contains(
                q as usize,
            )) by {
                if q == best as int {
                    assert(r@[r@.len() - 1] == q as usize);
                } else {
                    if old_r.contains(q as usize) {
                        let m = choose|m: int| 0 <= m < old_r.len() && old_r[m] == q as usize;
                        assert(r@[m] == q as usize);
                    }
                    if r@.contains(q as usize) {
                        let m = choose|m: int| 0 <= m < r@.len() && r@[m] == q as usize;
                        assert(m < old_r.len());
                        assert(old_r[m] == q as usize);
                    }
                }
            }
            assert forall|m1: int, m2: int| 0 <= m1 < m2 < r@.len() implies older(
                backups@,
                #[trigger] r@[m1] as int,
                #[trigger] r@[m2] as int,
            ) by {
                if m2 == r@.len() - 1 {
                    assert(!old_r.contains(best));
                    assert(old_r[m1] == r@[m1]);
                }
            }
            assert forall|m: int, q: int|
                0 <= m < r@.len() && 0 <= q < n && !r@.contains(q as usize) implies #[trigger] older(
                backups@,
                r@[m] as int,
                q,
            ) by {
                assert(!old_r.contains(q as usize)) by {
                    if old_r.contains(q as usize) {
                        let m0 = choose|m0: int| 0 <= m0 < old_r.len() && old_r[m0] == q as usize;
                        assert(r@[m0] == q as usize);
                    }
                }
                assert(q != best as int) by {
                    assert(r@[r@.len() - 1] == best);
                }
                if m < old_r.len() {
                    assert(old_r[m] == r@[m]);
                } else {
                    assert(!chosen@[q]);
                }
            }
            assert forall|m1: int, m2: int| 0 <= m1 < m2 < r@.len() implies #[trigger] r@[m1]
                != #[trigger] r@[m2] by {
                if m2 == r@.len() - 1 {
                    assert(old_r[m1] == r@[m1]);
                    assert(old_r.contains(r@[m1]));
                }
            }
        }
    }
    r
}

/// Fewer distinct positions than `n` leave some position out.
proof fn lemma_some_unchosen(r: Seq<usize>, n: int)
    requires
        r.len() < n <= usize::MAX + 1,
        forall|m: int| 0 <= m < r.len() ==> (#[trigger] r[m]) < n,
        forall|m1: int, m2: int| 0 <= m1 < m2 < r.len() ==> #[trigger] r[m1] != #[trigger] r[m2],
    ensures
        exists|q: usize| q < n && !#[trigger] r.contains(q),
{
    let s = r.to_set();
    let full = Set::<usize>::new(|q: usize| q < n);
    r.unique_seq_to_set();
    assert(s.subset_of(full));
    if forall|q: usize| q < n ==> #[trigger] r.contains(q) {
        assert(full.subset_of(s)) by {
            assert forall|q: usize| full.contains(q) implies s.contains(q) by {
                assert(r.contains(q));
            }
        }
        assert(full =~= s);
        lemma_usize_range_len(n);
        assert(false);
    }
}

/// The positions below `n` are `n` many.
proof fn lemma_usize_range_len(n: int)
    requires
        0 <= n <= usize::MAX + 1,
    ensures
        Set::<usize>::new(|q: usize| q < n).len() == n,
        Set::<usize>::new(|q: usize| q < n).finite(),
    decreases n,
{
    let full = Set::<usize>::new(|q: usize| q < n);
    if n == 0 {
        assert(full =~= Set::empty());
    } else {
        lemma_usize_range_len(n - 1);
        let smaller = Set::<usize>::new(|q: usize| q < n - 1);
        assert(full =~= smaller.insert((n - 1) as usize));
    }
}

} // verus!
