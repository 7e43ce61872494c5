//! The storage of short codes: what it holds, what each of its operations
//! does to it, and the trait that a storage implements.

use vstd::prelude::*;

verus! {

/// One stored short code, as contracts see it.
pub struct Row {
    pub short: Seq<char>,
    pub long: Seq<char>,
    /// The fingerprint of the one who submitted it.
    pub owner: u32,
    /// When it was stored.
    pub created: u64,
    /// How often it was followed.
    pub redirects: u64,
    /// When it was followed last; when it was stored, until then.
    pub last_redirect: u64,
}

/// A storage, as contracts see it: its rows in the order in which they were
/// stored, the passwords it accepts, and the time on its clock.
pub struct Table {
    pub rows: Seq<Row>,
    pub passwords: Set<Seq<char>>,
    pub now: u64,
}

/// The length of the trailing window over which submissions are counted,
/// in the clock's unit: seven days of seconds.
pub const QUOTA_WINDOW: u64 = 604_800;

/// The first position at or after `from` whose row has the code `short`;
/// the number of rows where there is none.
pub open spec fn row_index(rows: Seq<Row>, short: Seq<char>, from: int) -> int
    decreases rows.len() - from,
{
    if from < 0 || from >= rows.len() {
        rows.len() as int
    } else if rows[from].short == short {
        from
    } else {
        row_index(rows, short, from + 1)
    }
}

/// The storage holds the code `short`.
pub open spec fn holds(table: Table, short: Seq<char>) -> bool {
    row_index(table.rows, short, 0) < table.rows.len()
}

/// The row of the code `short`, in a storage that holds it.
pub open spec fn row_of(table: Table, short: Seq<char>) -> Row
    recommends
        holds(table, short),
{
    table.rows[row_index(table.rows, short, 0)]
}

/// What a look at the code `short` gives: its long URL, or nothing.
pub open spec fn peeked(table: Table, short: Seq<char>) -> Option<Seq<char>> {
    if holds(table, short) {
        Some(row_of(table, short).long)
    } else {
        None
    }
}

/// No code stands in two rows.
pub open spec fn unique_codes(rows: Seq<Row>) -> bool {
    forall|i: int, j: int| 0 <= i < j < rows.len() ==> (#[trigger] rows[i]).short != (
    #[trigger] rows[j]).short
}

/// The row that a submission makes: never followed, stored at `now`.
pub open spec fn fresh_row(long: Seq<char>, short: Seq<char>, owner: u32, now: u64) -> Row {
    Row { short: short, long: long, owner: owner, created: now, redirects: 0, last_redirect: now }
}

/// The storage after `short` was stored for `long`.
pub open spec fn stored(table: Table, long: Seq<char>, short: Seq<char>, owner: u32) -> Table {
    Table { rows: table.rows.push(fresh_row(long, short, owner, table.now)), ..table }
}

/// A counter after one more redirect. It stops at the largest number it
/// can hold.
pub open spec fn bumped(redirects: u64) -> u64 {
    if redirects < u64::MAX {
        (redirects + 1) as u64
    } else {
        redirects
    }
}

/// The storage after the code `short` was followed once: its counter is one
/// higher and its last redirect is now. A code that is not held changes
/// nothing.
pub open spec fn forwarded(table: Table, short: Seq<char>) -> Table {
    if holds(table, short) {
        let at = row_index(table.rows, short, 0);
        let row = table.rows[at];
        Table {
            rows: table.rows.update(
                at,
                Row { redirects: bumped(row.redirects), last_redirect: table.now, ..row },
            ),
            ..table
        }
    } else {
        table
    }
}

/// The storage after the code `short` was followed `n` times.
pub open spec fn forwarded_times(table: Table, short: Seq<char>, n: nat) -> Table
    decreases n,
{
    if n == 0 {
        table
    } else {
        forwarded(forwarded_times(table, short, (n - 1) as nat), short)
    }
}

/// A row was stored inside the window that ends at `now`.
pub open spec fn in_window(created: u64, now: u64) -> bool {
    created > now - QUOTA_WINDOW
}

/// The number of rows that `owner` stored inside the window that ends at
/// `now`.
pub open spec fn recent_count(rows: Seq<Row>, owner: u32, now: u64) -> nat
    decreases rows.len(),
{
    if rows.len() == 0 {
        0
    } else {
        recent_count(rows.drop_last(), owner, now) + if rows.last().owner == owner && in_window(
            rows.last().created,
            now,
        ) {
            1nat
        } else {
            0nat
        }
    }
}

/// A count as a storage reports it: it stops at the largest number that the
/// report can hold.
pub open spec fn reported(count: nat) -> u32 {
    if count > u32::MAX {
        u32::MAX
    } else {
        count as u32
    }
}

/// `row_index` finds the first row with the code `short` and nothing
/// before it.
pub proof fn lemma_row_index(rows: Seq<Row>, short: Seq<char>, from: int)
    requires
        0 <= from <= rows.len(),
    ensures
        from <= row_index(rows, short, from) <= rows.len(),
        row_index(rows, short, from) < rows.len() ==> rows[row_index(rows, short, from)].short
            == short,
        forall|j: int| from <= j < row_index(rows, short, from) ==> (#[trigger] rows[j]).short
            != short,
    decreases rows.len() - from,
{
    if from < rows.len() && rows[from].short != short {
        lemma_row_index(rows, short, from + 1);
    }
}

/// The first position that holds `short` is what `row_index` gives.
pub proof fn lemma_row_index_is(rows: Seq<Row>, short: Seq<char>, at: int)
    requires
        0 <= at <= rows.len(),
        at < rows.len() ==> rows[at].short == short,
        forall|j: int| 0 <= j < at ==> (#[trigger] rows[j]).short != short,
    ensures
        row_index(rows, short, 0) == at,
{
    lemma_row_index(rows, short, 0);
}

/// A storage of short codes. A storage that is not dependable may fail to
/// store for reasons of its own, and may report nothing where it cannot
/// count; every other answer is fixed by what the storage holds.
pub trait Database {
    /// What the storage holds.
    spec fn table(&self) -> Table;

    /// The storage answers for itself: it stores every code that it does not
    /// hold, and it always counts. A storage that can fail to read or to
    /// write, such as one on a disk, is not dependable.
    spec fn dependable(&self) -> bool;

    /// Stores `short_url` for `long_url` with a counter of zero, stamped with
    /// the storage's time. Fails, with a message, where the code is held
    /// already; a storage that is not dependable may fail where it cannot
    /// write. A failure changes nothing.
    fn store_shortened(&mut self, long_url: &str, short_url: &str, hashed_ip: u32) -> (r: Result<
        (),
        String,
    >)
        ensures
            holds(old(self).table(), short_url@) ==> r is Err,
            old(self).dependable() && !holds(old(self).table(), short_url@) ==> r is Ok,
            final(self).dependable() == old(self).dependable(),
            r is Ok ==> final(self).table() == stored(
                old(self).table(),
                long_url@,
                short_url@,
                hashed_ip,
            ),
            r is Err ==> final(self).table() == old(self).table(),
    ;

    /// Gives the long URL of `short_url` and counts one redirect more. A
    /// code that is not held fails and changes nothing.
    fn forward(&mut self, short_url: &str) -> (r: Result<String, ()>)
        ensures
            match r {
                Ok(long) => peeked(old(self).table(), short_url@) == Some(long@),
                Err(_) => peeked(old(self).table(), short_url@) is None,
            },
            final(self).table() == forwarded(old(self).table(), short_url@),
            final(self).dependable() == old(self).dependable(),
    ;

    /// Gives the long URL of `short_url`, and fails for a code that is not
    /// held.
    fn peek_long_url(&self, short_url: &str) -> (r: Result<String, ()>)
        ensures
            match r {
                Ok(long) => peeked(self.table(), short_url@) == Some(long@),
                Err(_) => peeked(self.table(), short_url@) is None,
            },
    ;

    /// Whether `pw` is one of the accepted passwords.
    fn is_password(&self, pw: &str) -> (r: bool)
        ensures
            r == self.table().passwords.contains(pw@),
    ;

    /// The number of codes that the fingerprint `hashed_ip` stored inside
    /// the trailing window. A storage that is not dependable reports zero
    /// where it cannot count.
    fn urls_stored_last_7_days(&self, hashed_ip: u32) -> (r: u32)
        ensures
            r == reported(recent_count(self.table().rows, hashed_ip, self.table().now)) || (
            !self.dependable() && r == 0),
    ;
}

} // verus!
