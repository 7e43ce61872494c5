//! What holds of the storage and of the short codes, whatever is stored.

use crate::database::{
    bumped, forwarded, forwarded_times, fresh_row, holds, lemma_row_index, lemma_row_index_is,
    peeked, recent_count, reported, row_index, row_of, stored, unique_codes, Row, Table,
};
use crate::handler::{
    code_settled, create_settled, created_page, generated, page_view, reserved,
    stored_or_refused, taken_message, usable, verdict_of, well_formed, with_scheme,
    HandlerErrorView, Submission, Verdict, OVER_QUOTA, QUOTA, SHORT_URL,
};
use crate::pattern::matching;
use crate::response::{ResponseCode, ResponseView};
use crate::text::{contains_text, occurs_at};
use vstd::prelude::*;

verus! {

/// A code that was stored is held, and a look at it gives the long URL
/// that it was stored for.
pub proof fn law_store_then_peek(table: Table, long: Seq<char>, short: Seq<char>, owner: u32)
    requires
        !holds(table, short),
    ensures
        holds(stored(table, long, short, owner), short),
        peeked(stored(table, long, short, owner), short) == Some(long),
        row_of(stored(table, long, short, owner), short) == fresh_row(long, short, owner, table.now),
{
    lemma_row_index(table.rows, short, 0);
    lemma_row_index_is(stored(table, long, short, owner).rows, short, table.rows.len() as int);
}

/// Storing a code leaves every other code as it was.
pub proof fn law_store_keeps_others(
    table: Table,
    long: Seq<char>,
    short: Seq<char>,
    owner: u32,
    other: Seq<char>,
)
    requires
        other != short,
    ensures
        holds(stored(table, long, short, owner), other) == holds(table, other),
        holds(table, other) ==> row_of(stored(table, long, short, owner), other) == row_of(
            table,
            other,
        ),
{
    let after = stored(table, long, short, owner).rows;
    lemma_row_index(table.rows, other, 0);
    let at = row_index(table.rows, other, 0);
    if at < table.rows.len() {
        lemma_row_index_is(after, other, at);
    } else {
        lemma_row_index_is(after, other, after.len() as int);
    }
}

/// A submission that was stored, with a code that was not held, is looked
/// up under its code with the long URL that was submitted, scheme and all.
pub proof fn law_create_then_peek(
    long: Seq<char>,
    short: Seq<char>,
    owner: u32,
    before: Table,
    after: Table,
    template: Seq<char>,
    base_url: Seq<char>,
    page: ResponseView,
)
    requires
        !holds(before, short),
        stored_or_refused(
            long,
            short,
            owner,
            before,
            after,
            template,
            base_url,
            Ok::<_, HandlerErrorView>(page),
        ),
    ensures
        peeked(after, short) == Some(long),
{
    law_store_then_peek(before, long, short, owner);
}

/// A long URL with a scheme opens with one, and giving it a scheme once more
/// changes nothing.
pub proof fn law_scheme_is_there(long: Seq<char>)
    ensures
        "https://"@.is_prefix_of(with_scheme(long)) || "http://"@.is_prefix_of(with_scheme(long)),
        with_scheme(with_scheme(long)) == with_scheme(long),
{
    assert(("https://"@ + long).subrange(0, "https://"@.len() as int) =~= "https://"@);
}

/// Following a code that is held changes its counter and the time of its
/// last redirect and nothing else: the counter is one higher, unless it
/// stands at its largest number.
pub proof fn law_forward_once(table: Table, short: Seq<char>)
    requires
        holds(table, short),
    ensures
        holds(forwarded(table, short), short),
        peeked(forwarded(table, short), short) == peeked(table, short),
        row_of(forwarded(table, short), short) == (Row {
            redirects: bumped(row_of(table, short).redirects),
            last_redirect: table.now,
            ..row_of(table, short)
        }),
        forwarded(table, short).rows.len() == table.rows.len(),
        forwarded(table, short).now == table.now,
        forwarded(table, short).passwords == table.passwords,
{
    lemma_row_index(table.rows, short, 0);
    let at = row_index(table.rows, short, 0);
    lemma_row_index_is(forwarded(table, short).rows, short, at);
}

/// Following a code `n` times keeps its long URL and adds `n` to its
/// counter, which stops at its largest number.
pub proof fn law_forward_counts(table: Table, short: Seq<char>, n: nat)
    requires
        holds(table, short),
    ensures
        holds(forwarded_times(table, short, n), short),
        peeked(forwarded_times(table, short, n), short) == peeked(table, short),
        row_of(forwarded_times(table, short, n), short).redirects == if row_of(
            table,
            short,
        ).redirects + n <= u64::MAX {
            row_of(table, short).redirects + n
        } else {
            u64::MAX as int
        },
    decreases n,
{
    if n > 0 {
        law_forward_counts(table, short, (n - 1) as nat);
        law_forward_once(forwarded_times(table, short, (n - 1) as nat), short);
    }
}

/// A code that was stored and then followed `n` times still leads to the
/// long URL it was stored for, and its counter stands at `n`, for every `n`
/// that the counter can hold.
pub proof fn law_store_then_forward(
    table: Table,
    long: Seq<char>,
    short: Seq<char>,
    owner: u32,
    n: nat,
)
    requires
        !holds(table, short),
    ensures
        peeked(forwarded_times(stored(table, long, short, owner), short, n), short) == Some(long),
        n <= u64::MAX ==> row_of(
            forwarded_times(stored(table, long, short, owner), short, n),
            short,
        ).redirects == n,
{
    law_store_then_peek(table, long, short, owner);
    law_forward_counts(stored(table, long, short, owner), short, n);
}

/// A counter never goes down.
pub proof fn law_redirects_never_decrease(table: Table, short: Seq<char>, other: Seq<char>)
    requires
        holds(table, other),
    ensures
        holds(forwarded(table, short), other),
        row_of(forwarded(table, short), other).redirects >= row_of(table, other).redirects,
{
    lemma_row_index(table.rows, other, 0);
    lemma_row_index(table.rows, short, 0);
    let at = row_index(table.rows, other, 0);
    lemma_row_index_is(forwarded(table, short).rows, other, at);
}

/// No code comes to stand twice: storing a code that is not held, and
/// following any code, keep the codes of the rows distinct.
pub proof fn law_codes_stay_unique(table: Table, long: Seq<char>, short: Seq<char>, owner: u32)
    requires
        unique_codes(table.rows),
    ensures
        !holds(table, short) ==> unique_codes(stored(table, long, short, owner).rows),
        unique_codes(forwarded(table, short).rows),
{
    lemma_row_index(table.rows, short, 0);
}

/// A code that is shorter than three characters, holds a character outside
/// the allowed class, or is a reserved word cannot be given out, whatever
/// the storage holds.
pub proof fn law_malformed_is_never_usable(code: Seq<char>, table: Table)
    requires
        code.len() < 3 || !matching(SHORT_URL@, code) || reserved(code),
    ensures
        !well_formed(code),
        !usable(code, table),
{
}

/// A code that the storage holds cannot be given out.
pub proof fn law_held_is_never_usable(code: Seq<char>, table: Table)
    requires
        holds(table, code),
    ensures
        !usable(code, table),
{
}

/// The message for a code that is taken names the code.
pub proof fn law_taken_message_names_code(short: Seq<char>)
    ensures
        contains_text(taken_message(short), short),
{
    let message = taken_message(short);
    let at = "Short URL "@.len() as int;
    assert(message.subrange(at, at + short.len()) =~= short);
    assert(occurs_at(message, short, at));
}

/// An admitted submission that wants a code which is held is refused with
/// the message that names the code, and the storage stays as it was.
pub proof fn law_taken_is_refused(
    s: Submission,
    owner: u32,
    dependable: bool,
    before: Table,
    after: Table,
    template: Seq<char>,
    base_url: Seq<char>,
    outcome: Result<ResponseView, HandlerErrorView>,
)
    requires
        s.short matches Some(short) && holds(before, short),
        create_settled(s, owner, dependable, before, after, template, base_url, outcome),
    ensures
        outcome == Err::<ResponseView, _>(HandlerErrorView::E400(taken_message(s.short->0))),
        contains_text(taken_message(s.short->0), s.short->0),
        after == before,
{
    law_taken_message_names_code(s.short->0);
}

/// An admitted submission that wants a code which has not the form of a
/// short code is refused, and the storage stays as it was.
pub proof fn law_malformed_is_refused(
    s: Submission,
    owner: u32,
    dependable: bool,
    before: Table,
    after: Table,
    template: Seq<char>,
    base_url: Seq<char>,
    outcome: Result<ResponseView, HandlerErrorView>,
)
    requires
        s.short matches Some(short) && !well_formed(short),
        create_settled(s, owner, dependable, before, after, template, base_url, outcome),
    ensures
        outcome matches Err(HandlerErrorView::E400(_)),
        after == before,
{
}

/// Every code of `rows` has the form of a short code.
pub open spec fn codes_well_formed(rows: Seq<Row>) -> bool {
    forall|i: int| 0 <= i < rows.len() ==> well_formed((#[trigger] rows[i]).short)
}

/// A storage whose codes all have the form of a short code keeps it so,
/// however a submission ends, and whatever code is followed.
pub proof fn law_codes_stay_well_formed(
    s: Submission,
    owner: u32,
    dependable: bool,
    before: Table,
    after: Table,
    template: Seq<char>,
    base_url: Seq<char>,
    outcome: Result<ResponseView, HandlerErrorView>,
    followed: Seq<char>,
)
    requires
        codes_well_formed(before.rows),
        create_settled(s, owner, dependable, before, after, template, base_url, outcome),
    ensures
        codes_well_formed(after.rows),
        codes_well_formed(forwarded(before, followed).rows),
{
    lemma_row_index(before.rows, followed, 0);
    if after != before {
        let code = if s.short is Some {
            s.short->0
        } else {
            choose|code: Seq<char>|
                #[trigger] generated(code) && usable(code, before) && code_settled(
                    s.long,
                    code,
                    owner,
                    dependable,
                    before,
                    after,
                    template,
                    base_url,
                    outcome,
                )
        };
        assert(after == stored(before, s.long, code, owner));
        assert(well_formed(code));
        assert forall|i: int| 0 <= i < after.rows.len() implies well_formed(
            (#[trigger] after.rows[i]).short,
        ) by {
            if i < before.rows.len() {
                assert(after.rows[i] == before.rows[i]);
            }
        }
    }
}

/// With a dependable storage, an admitted submission that wants a code
/// which has the form of a short code and is not held, from a submitter
/// within the quota, is stored: the response is the page that confirms it,
/// and a look at the code gives the long URL that was submitted, scheme and
/// all, with a counter of zero.
pub proof fn law_dependable_create(
    s: Submission,
    owner: u32,
    before: Table,
    after: Table,
    template: Seq<char>,
    base_url: Seq<char>,
    outcome: Result<ResponseView, HandlerErrorView>,
)
    requires
        s.short matches Some(short) && usable(short, before),
        recent_count(before.rows, owner, before.now) <= QUOTA,
        create_settled(s, owner, true, before, after, template, base_url, outcome),
    ensures
        outcome == Ok::<_, HandlerErrorView>(
            page_view(ResponseCode::Okay, created_page(template, base_url, s.short->0, s.long)),
        ),
        after == stored(before, s.long, s.short->0, owner),
        peeked(after, s.short->0) == Some(s.long),
        row_of(after, s.short->0).redirects == 0,
{
    law_store_then_peek(before, s.long, s.short->0, owner);
}

/// With a dependable storage, an admitted submission from a submitter who
/// stored more than a hundred codes inside the window is refused, whatever
/// free code it wants, and nothing is stored.
pub proof fn law_dependable_quota(
    s: Submission,
    owner: u32,
    before: Table,
    after: Table,
    template: Seq<char>,
    base_url: Seq<char>,
    outcome: Result<ResponseView, HandlerErrorView>,
)
    requires
        s.short matches Some(short) && usable(short, before),
        recent_count(before.rows, owner, before.now) > QUOTA,
        create_settled(s, owner, true, before, after, template, base_url, outcome),
    ensures
        outcome == Err::<ResponseView, _>(HandlerErrorView::E400(OVER_QUOTA@)),
        after == before,
{
}

/// Whoever stored more than a hundred codes inside the window is refused
/// with the next, and whoever stored a hundred or fewer is not refused on
/// that ground.
pub proof fn law_quota(rows: Seq<Row>, owner: u32, now: u64)
    ensures
        verdict_of(false, true, reported(recent_count(rows, owner, now))) == if recent_count(
            rows,
            owner,
            now,
        ) > QUOTA {
            Verdict::OverQuota
        } else {
            Verdict::Store
        },
{
}

/// A fingerprint that stored nothing counts nothing.
pub proof fn law_fresh_owner_counts_zero(rows: Seq<Row>, owner: u32, now: u64)
    requires
        forall|i: int| 0 <= i < rows.len() ==> (#[trigger] rows[i]).owner != owner,
    ensures
        recent_count(rows, owner, now) == 0,
        verdict_of(false, true, reported(recent_count(rows, owner, now))) == Verdict::Store,
    decreases rows.len(),
{
    if rows.len() > 0 {
        assert forall|i: int| 0 <= i < rows.drop_last().len() implies (
        #[trigger] rows.drop_last()[i]).owner != owner by {
            assert(rows.drop_last()[i] == rows[i]);
        }
        law_fresh_owner_counts_zero(rows.drop_last(), owner, now);
        assert(rows.last() == rows[rows.len() - 1]);
    }
}

/// The storage after the codes of `codes` were followed, one after the
/// other.
pub open spec fn forwarded_all(table: Table, codes: Seq<Seq<char>>) -> Table
    decreases codes.len(),
{
    if codes.len() == 0 {
        table
    } else {
        forwarded(forwarded_all(table, codes.drop_last()), codes.last())
    }
}

/// How often `short` stands in `codes`.
pub open spec fn times_followed(codes: Seq<Seq<char>>, short: Seq<char>) -> nat
    decreases codes.len(),
{
    if codes.len() == 0 {
        0
    } else {
        times_followed(codes.drop_last(), short) + if codes.last() == short {
            1nat
        } else {
            0nat
        }
    }
}

/// Following one code leaves the row of every other code as it was.
pub proof fn law_forward_keeps_others(table: Table, short: Seq<char>, other: Seq<char>)
    requires
        other != short,
    ensures
        holds(forwarded(table, short), other) == holds(table, other),
        holds(table, other) ==> row_of(forwarded(table, short), other) == row_of(table, other),
{
    lemma_row_index(table.rows, other, 0);
    lemma_row_index(table.rows, short, 0);
    let at = row_index(table.rows, other, 0);
    lemma_row_index_is(forwarded(table, short).rows, other, at);
}

/// Whatever codes are followed in whatever order, a code that is held
/// keeps its long URL, and its counter has gone up by the number of times
/// that it was followed itself, as far as the counter can count.
pub proof fn law_forwards_are_counted(table: Table, codes: Seq<Seq<char>>, short: Seq<char>)
    requires
        holds(table, short),
    ensures
        holds(forwarded_all(table, codes), short),
        peeked(forwarded_all(table, codes), short) == peeked(table, short),
        row_of(forwarded_all(table, codes), short).redirects == if row_of(table, short).redirects
            + times_followed(codes, short) <= u64::MAX {
            row_of(table, short).redirects + times_followed(codes, short)
        } else {
            u64::MAX as int
        },
    decreases codes.len(),
{
    if codes.len() > 0 {
        let before = forwarded_all(table, codes.drop_last());
        law_forwards_are_counted(table, codes.drop_last(), short);
        if codes.last() == short {
            law_forward_once(before, short);
        } else {
            law_forward_keeps_others(before, codes.last(), short);
        }
    }
}

/// A code that was stored and then followed among other codes leads to the
/// long URL it was stored for, and its counter stands at the number of
/// times that it was followed, for every number that the counter can hold.
pub proof fn law_store_then_forwards(
    table: Table,
    long: Seq<char>,
    short: Seq<char>,
    owner: u32,
    codes: Seq<Seq<char>>,
)
    requires
        !holds(table, short),
    ensures
        peeked(forwarded_all(stored(table, long, short, owner), codes), short) == Some(long),
        times_followed(codes, short) <= u64::MAX ==> row_of(
            forwarded_all(stored(table, long, short, owner), codes),
            short,
        ).redirects == times_followed(codes, short),
{
    law_store_then_peek(table, long, short, owner);
    law_forwards_are_counted(stored(table, long, short, owner), codes, short);
}

} // verus!
