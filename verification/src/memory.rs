//! A storage that lives in memory. Its clock is set by hand.

use crate::database::{
    forwarded, fresh_row, holds, recent_count, row_index, stored, Database, Row, Table,
    QUOTA_WINDOW,
};
use crate::text::same_text;
use vstd::prelude::*;

verus! {

/// One stored short code.
#[derive(Debug)]
pub struct UrlRecord {
    pub short: String,
    pub long: String,
    pub owner: u32,
    pub created: u64,
    pub redirects: u64,
    pub last_redirect: u64,
}

impl View for UrlRecord {
    type V = Row;

    open spec fn view(&self) -> Row {
        Row {
            short: self.short@,
            long: self.long@,
            owner: self.owner,
            created: self.created,
            redirects: self.redirects,
            last_redirect: self.last_redirect,
        }
    }
}

/// The rows that a list of records stands for.
pub open spec fn rows_of(records: Seq<UrlRecord>) -> Seq<Row> {
    records.map_values(|r: UrlRecord| r@)
}

/// The texts that a list of strings holds, as a set.
pub open spec fn text_set(list: Seq<String>) -> Set<Seq<char>> {
    Set::new(|t: Seq<char>| exists|i: int| 0 <= i < list.len() && (#[trigger] list[i])@ == t)
}

/// A storage in memory.
#[derive(Debug)]
pub struct MemoryDB {
    records: Vec<UrlRecord>,
    passwords: Vec<String>,
    now: u64,
}

impl MemoryDB {
    /// A storage without rows and without passwords, whose clock shows
    /// zero.
    pub fn new() -> (r: MemoryDB)
        ensures
            r.table() == (Table {
                rows: Seq::<Row>::empty(),
                passwords: Set::<Seq<char>>::empty(),
                now: 0,
            }),
    {
        let r = MemoryDB { records: Vec::new(), passwords: Vec::new(), now: 0 };
        assert(rows_of(r.records@) =~= Seq::<Row>::empty());
        assert(text_set(r.passwords@) =~= Set::<Seq<char>>::empty());
        r
    }

    /// Accepts the password `pw` from now on.
    pub fn add_password(&mut self, pw: &str)
        ensures
            final(self).table() == (Table {
                passwords: old(self).table().passwords.insert(pw@),
                ..old(self).table()
            }),
    {
        let ghost before = self.passwords@;
        self.passwords.push(pw.to_owned());
        proof {
            let after = self.passwords@;
            assert forall|t: Seq<char>| text_set(after).contains(t) == text_set(before).insert(
                pw@,
            ).contains(t) by {
                if text_set(after).contains(t) {
                    let i = choose|i: int| 0 <= i < after.len() && (#[trigger] after[i])@ == t;
                    if i < before.len() {
                        assert(before[i]@ == t);
                    }
                }
                if text_set(before).contains(t) {
                    let i = choose|i: int| 0 <= i < before.len() && (#[trigger] before[i])@ == t;
                    assert(after[i]@ == t);
                }
                if t == pw@ {
                    assert(after[before.len() as int]@ == t);
                }
            }
            assert(text_set(after) =~= text_set(before).insert(pw@));
        }
    }

    /// Sets the clock.
    pub fn set_time(&mut self, now: u64)
        ensures
            final(self).table() == (Table { now: now, ..old(self).table() }),
    {
        self.now = now;
    }

    /// The number of rows.
    pub fn len(&self) -> (n: usize)
        ensures
            n == self.table().rows.len(),
    {
        self.records.len()
    }

    fn find(&self, short: &str) -> (at: usize)
        ensures
            at == row_index(self.table().rows, short@, 0),
            at <= self.records.len(),
    {
        let mut i: usize = 0;
        while i < self.records.len() && !same_text(self.records[i].short.as_str(), short)
            invariant
                i <= self.records.len(),
                row_index(rows_of(self.records@), short@, 0) == row_index(
                    rows_of(self.records@),
                    short@,
                    i as int,
                ),
            decreases self.records.len() - i,
        {
            i += 1;
        }
        i
    }

    /// The row of the code `short`, if the storage holds it.
    pub fn record(&self, short: &str) -> (r: Option<&UrlRecord>)
        ensures
            match r {
                Some(record) => holds(self.table(), short@) && record@ == self.table().rows[row_index(
                    self.table().rows,
                    short@,
                    0,
                )],
                None => !holds(self.table(), short@),
            },
    {
        let at = self.find(short);
        if at < self.records.len() {
            Some(&self.records[at])
        } else {
            None
        }
    }
}

impl Database for MemoryDB {
    /// A storage in memory never fails of its own, and always counts.
    open spec fn dependable(&self) -> bool {
        true
    }

    closed spec fn table(&self) -> Table {
        Table {
            rows: rows_of(self.records@),
            passwords: text_set(self.passwords@),
            now: self.now,
        }
    }

    fn store_shortened(&mut self, long_url: &str, short_url: &str, hashed_ip: u32) -> (r: Result<
        (),
        String,
    >) {
        let at = self.find(short_url);
        if at < self.records.len() {
            return Err("short url is stored already".to_owned());
        }
        self.records.push(
            UrlRecord {
                short: short_url.to_owned(),
                long: long_url.to_owned(),
                owner: hashed_ip,
                created: self.now,
                redirects: 0,
                last_redirect: self.now,
            },
        );
        assert(rows_of(self.records@) =~= rows_of(old(self).records@).push(
            fresh_row(long_url@, short_url@, hashed_ip, self.now),
        ));
        Ok(())
    }

    fn forward(&mut self, short_url: &str) -> (r: Result<String, ()>) {
        let at = self.find(short_url);
        if at >= self.records.len() {
            return Err(());
        }
        let record = &self.records[at];
        let long = record.long.clone();
        let redirects = if record.redirects < u64::MAX {
            record.redirects + 1
        } else {
            record.redirects
        };
        let next = UrlRecord {
            short: record.short.clone(),
            long: record.long.clone(),
            owner: record.owner,
            created: record.created,
            redirects,
            last_redirect: self.now,
        };
        self.records.set(at, next);
        assert(rows_of(self.records@) =~= forwarded(old(self).table(), short_url@).rows);
        Ok(long)
    }

    fn peek_long_url(&self, short_url: &str) -> (r: Result<String, ()>) {
        let at = self.find(short_url);
        if at < self.records.len() {
            Ok(self.records[at].long.clone())
        } else {
            Err(())
        }
    }

    fn is_password(&self, pw: &str) -> (r: bool) {
        let mut i: usize = 0;
        while i < self.passwords.len()
            invariant
                i <= self.passwords.len(),
                forall|j: int| 0 <= j < i ==> (#[trigger] self.passwords@[j])@ != pw@,
            decreases self.passwords.len() - i,
        {
            if same_text(self.passwords[i].as_str(), pw) {
                return true;
            }
            i += 1;
        }
        false
    }

    fn urls_stored_last_7_days(&self, hashed_ip: u32) -> (r: u32) {
        let mut count: usize = 0;
        let mut i: usize = 0;
        let ghost rows = rows_of(self.records@);
        assert(rows.take(0) =~= Seq::<Row>::empty());
        while i < self.records.len()
            invariant
                i <= self.records.len(),
                rows == rows_of(self.records@),
                count <= i,
                count == recent_count(rows.take(i as int), hashed_ip, self.now),
            decreases self.records.len() - i,
        {
            assert(rows.take(i + 1).drop_last() =~= rows.take(i as int));
            assert(rows.take(i + 1).last() == self.records@[i as int]@);
            let record = &self.records[i];
            if record.owner == hashed_ip && (self.now < QUOTA_WINDOW || record.created > self.now
                - QUOTA_WINDOW) {
                count += 1;
            }
            i += 1;
        }
        assert(rows.take(self.records.len() as int) =~= rows);
        if count > u32::MAX as usize {
            u32::MAX
        } else {
            count as u32
        }
    }
}

} // verus!
