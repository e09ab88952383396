//! Stream merger: one pending buffer and one pagination-cursor window per
//! source, and the K-way merge that yields buffered items across all
//! sources in non-decreasing creation-time order, each item once.

use std::collections::VecDeque;

use vstd::prelude::*;

use crate::item::Comment;
use crate::monitor::elapsed_secs;
use crate::text::str_eq;

verus! {

/// Bound on the per-source window of recently seen item names.
pub const WINDOW_LIMIT: usize = 10;

/// How many items one listing request asks for.
pub const LISTING_LIMIT: u64 = 100;

/// Least wall-clock spacing between two refresh cycles, in seconds.
pub const MIN_REFRESH_SECS: u64 = 5;

/// A listing as the remote hands it out: newest first.
pub open spec fn rev_chron(s: Seq<Comment>) -> bool {
    forall|i: int, j: int| 0 <= i < j < s.len() ==> s[i].created_utc >= s[j].created_utc
}

/// A pending buffer in delivery order: oldest first.
pub open spec fn chron(s: Seq<Comment>) -> bool {
    forall|i: int, j: int| 0 <= i < j < s.len() ==> s[i].created_utc <= s[j].created_utc
}

/// The names the window is fed with: those of the `count` newest items of
/// a newest-first listing, newest in front.
pub open spec fn name_prefix(items: Seq<Comment>, count: nat) -> Seq<String> {
    Seq::new(count, |k: int| items[k].name)
}

/// How many of a listing's names enter the window.
pub open spec fn window_take(items: Seq<Comment>) -> nat {
    if items.len() <= WINDOW_LIMIT {
        items.len()
    } else {
        WINDOW_LIMIT as nat
    }
}

/// The window after a listing was taken: the newest names in front of the
/// previous window, cut back to `WINDOW_LIMIT`.
pub open spec fn window_after(items: Seq<Comment>, names: Seq<String>) -> Seq<String> {
    let combined = name_prefix(items, window_take(items)) + names;
    if combined.len() <= WINDOW_LIMIT {
        combined
    } else {
        combined.take(WINDOW_LIMIT as int)
    }
}

/// A chronological pending buffer stays chronological when a newest-first
/// listing, none of whose items is older than the buffered ones, is
/// appended unreversed — which is what [`SourceState::on_listing`] does.
pub proof fn lemma_cache_stays_chron(cache: Seq<Comment>, items: Seq<Comment>)
    requires
        chron(cache),
        rev_chron(items),
        cache.len() > 0 && items.len() > 0 ==> cache[cache.len() - 1].created_utc
            <= items[items.len() - 1].created_utc,
    ensures
        chron(cache + items.reverse()),
{
    let whole = cache + items.reverse();
    let n = items.len() as int;
    assert forall|i: int, j: int|
        0 <= i < j < whole.len() implies (#[trigger] whole[i]).created_utc
        <= (#[trigger] whole[j]).created_utc by {
        if j >= cache.len() {
            assert(whole[j] == items[n - 1 - (j - cache.len())]);
            if i >= cache.len() {
                assert(whole[i] == items[n - 1 - (i - cache.len())]);
            } else {
                assert(whole[i].created_utc <= cache[cache.len() - 1].created_utc);
                assert(items[n - 1].created_utc <= items[n - 1 - (j - cache.len())].created_utc);
            }
        }
    }
}

/// However long a listing and however full the window, taking a listing
/// never leaves more than `WINDOW_LIMIT` names in the window; and the
/// window only ever shrinks by whole entries, never below empty.
pub proof fn lemma_window_bounded(items: Seq<Comment>, names: Seq<String>)
    ensures
        window_after(items, names).len() <= WINDOW_LIMIT,
{
}

/// How long a refresh that starts now must still wait to keep the least
/// spacing since the previous refresh. A clock that stepped backwards
/// counts as no elapsed time.
pub fn refresh_wait_secs(last_refresh_at: Option<u64>, now: u64) -> (r: u64)
    ensures
        match last_refresh_at {
            None => r == 0,
            Some(t) => r == if elapsed_secs(t, now) < MIN_REFRESH_SECS {
                (MIN_REFRESH_SECS - elapsed_secs(t, now)) as u64
            } else {
                0u64
            },
        },
{
    match last_refresh_at {
        None => 0,
        Some(t) => {
            let elapsed: u64 = if now >= t {
                now - t
            } else {
                0
            };
            if elapsed < MIN_REFRESH_SECS {
                MIN_REFRESH_SECS - elapsed
            } else {
                0
            }
        },
    }
}

/// The author name the remote gives to comments whose account is gone.
pub open spec fn deleted_sentinel() -> Seq<char> {
    "[deleted]"@
}

/// Whether a directly looked-up cursor item still lives: it must still
/// exist and must not belong to the deleted-user sentinel. The flag feeds
/// [`SourceState::on_cursor_checked`].
pub fn cursor_item_live(item: Option<&Comment>) -> (r: bool)
    ensures
        r == match item {
            Some(c) => c.author@ != deleted_sentinel(),
            None => false,
        },
{
    match item {
        None => false,
        Some(c) => !str_eq(c.author.as_str(), "[deleted]"),
    }
}

/// What one source's refresh asks the embedding loop to do next.
pub enum ListingOutcome {
    /// The listing was taken (or was a legitimate empty answer); move on.
    Accepted,
    /// The listing was empty although a cursor was supplied: the named
    /// item may have been deleted and must be looked up directly.
    CheckCursor { name: String },
}

/// Pagination state and pending buffer of one source.
pub struct SourceState {
    /// Most-recent-first window of previously seen item names; the front
    /// is the `before` cursor for the next listing request.
    pub recent_names: VecDeque<String>,
    /// Fetched but not yet yielded items, oldest first.
    pub cache: VecDeque<Comment>,
}

impl SourceState {
    /// The cursor window never outgrows `WINDOW_LIMIT`.
    pub open spec fn wf(self) -> bool {
        self.recent_names@.len() <= WINDOW_LIMIT
    }

    pub fn new() -> (s: SourceState)
        ensures
            s.recent_names@ == Seq::<String>::empty(),
            s.cache@ == Seq::<Comment>::empty(),
            s.wf(),
    {
        SourceState { recent_names: VecDeque::new(), cache: VecDeque::new() }
    }

    /// Whether this source must be fetched this cycle: only while its
    /// buffer holds no unconsumed items.
    pub fn needs_fetch(&self) -> (r: bool)
        ensures
            r == (self.cache@.len() == 0),
    {
        self.cache.len() == 0
    }

    /// The `before` cursor for the next listing request: the most recent
    /// name in the window, if any.
    pub fn cursor(&self) -> (r: Option<&String>)
        ensures
            match r {
                Some(name) => self.recent_names@.len() > 0 && *name == self.recent_names@[0],
                None => self.recent_names@.len() == 0,
            },
    {
        if self.recent_names.len() > 0 {
            Some(&self.recent_names[0])
        } else {
            None
        }
    }

    /// Takes one listing returned for this source. An empty listing under
    /// a supplied cursor is suspicious and asks for a direct lookup of the
    /// cursor item, changing nothing; any other listing pushes the names
    /// of its (at most) `WINDOW_LIMIT` newest items onto the window,
    /// newest in front, trims the window, and appends the items,
    /// unreversed into chronological order, to the pending buffer.
    pub fn on_listing(&mut self, items: Vec<Comment>) -> (r: ListingOutcome)
        ensures
            match r {
                ListingOutcome::Accepted => {
                    &&& !(items@.len() == 0 && old(self).recent_names@.len() > 0)
                    &&& final(self).recent_names@ == window_after(
                        items@,
                        old(self).recent_names@,
                    )
                    &&& final(self).cache@ == old(self).cache@ + items@.reverse()
                    &&& final(self).wf()
                },
                ListingOutcome::CheckCursor { name } => {
                    &&& items@.len() == 0
                    &&& old(self).recent_names@.len() > 0
                    &&& name == old(self).recent_names@[0]
                    &&& final(self).recent_names@ == old(self).recent_names@
                    &&& final(self).cache@ == old(self).cache@
                },
            },
    {
        let n = items.len();
        if n == 0 && self.recent_names.len() > 0 {
            return ListingOutcome::CheckCursor { name: self.recent_names[0].clone() };
        }
        let ghost listed = items@;
        let ghost old_names = self.recent_names@;
        let ghost old_cache = self.cache@;
        let take: usize = if n > WINDOW_LIMIT {
            WINDOW_LIMIT
        } else {
            n
        };
        let mut t: usize = 0;
        while t < take
            invariant
                t <= take,
                take == window_take(listed),
                take <= n == listed.len() == items@.len(),
                items@ == listed,
                self.recent_names@ =~= Seq::new(t as nat, |k: int| listed[take - t + k].name)
                    + old_names,
                self.cache@ == old_cache,
            decreases take - t,
        {
            self.recent_names.push_front(items[take - 1 - t].name.clone());
            t = t + 1;
            proof {
                assert(self.recent_names@ =~= Seq::new(t as nat, |k: int| listed[take - t + k].name)
                    + old_names);
            }
        }
        self.recent_names.truncate(WINDOW_LIMIT);
        proof {
            assert(Seq::new(take as nat, |k: int| listed[k].name) =~= name_prefix(
                listed,
                window_take(listed),
            ));
            assert(self.recent_names@ =~= window_after(listed, old_names));
        }
        let mut items = items;
        let ghost done = self.recent_names@;
        let mut popped: usize = 0;
        while items.len() > 0
            invariant
                popped + items@.len() == n,
                n == listed.len(),
                items@ == listed.take(items@.len() as int),
                self.cache@.len() == old_cache.len() + popped,
                forall|q: int| 0 <= q < old_cache.len() ==> self.cache@[q] == old_cache[q],
                forall|q: int|
                    0 <= q < popped ==> #[trigger] self.cache@[old_cache.len() + q] == listed[n - 1
                        - q],
                self.recent_names@ == done,
            decreases items@.len(),
        {
            let ghost before = items@;
            let c = items.pop().unwrap();
            proof {
                assert(items@ =~= listed.take(items@.len() as int));
            }
            self.cache.push_back(c);
            popped = popped + 1;
        }
        proof {
            assert(listed.reverse().len() == n);
            assert forall|i: int|
                0 <= i < self.cache@.len() implies self.cache@[i] == (old_cache
                + listed.reverse())[i] by {
                if i >= old_cache.len() {
                    let q = i - old_cache.len();
                    assert(self.cache@[old_cache.len() + q] == listed[n - 1 - q]);
                    assert(listed.reverse()[q] == listed[n - 1 - q]);
                }
            }
            assert(self.cache@ =~= old_cache + listed.reverse());
        }
        ListingOutcome::Accepted
    }

    /// Takes the direct lookup of a suspicious cursor item. If the item is
    /// gone (or belongs to the deleted-user sentinel), the front of the
    /// window is dropped and the fetch must be retried under the next
    /// cursor; if it still lives, the empty listing was legitimate.
    pub fn on_cursor_checked(&mut self, live: bool) -> (retry: bool)
        ensures
            retry == !live,
            live ==> final(self).recent_names@ == old(self).recent_names@,
            !live ==> final(self).recent_names@ == old(self).recent_names@.skip(
                if old(self).recent_names@.len() > 0 {
                    1int
                } else {
                    0int
                },
            ),
            final(self).cache@ == old(self).cache@,
            final(self).recent_names@.len() <= old(self).recent_names@.len(),
            old(self).wf() ==> final(self).wf(),
    {
        if live {
            false
        } else {
            let popped = self.recent_names.pop_front();
            proof {
                if old(self).recent_names@.len() > 0 {
                    assert(self.recent_names@ =~= old(self).recent_names@.skip(1));
                } else {
                    assert(self.recent_names@ =~= old(self).recent_names@.skip(0));
                }
            }
            true
        }
    }
}

/// The best source among the first `n`: the lowest index whose buffer
/// front carries the strictly smallest creation time seen so far (an
/// earlier source keeps a tie).
pub open spec fn merge_choice_prefix(bufs: Seq<Seq<Comment>>, n: int) -> Option<int>
    decreases n,
{
    if n <= 0 {
        None
    } else {
        let prev = merge_choice_prefix(bufs, n - 1);
        if bufs[n - 1].len() == 0 {
            prev
        } else {
            match prev {
                None => Some(n - 1),
                Some(j) => if bufs[n - 1][0].created_utc < bufs[j][0].created_utc {
                    Some(n - 1)
                } else {
                    Some(j)
                },
            }
        }
    }
}

/// The source the merge pops from: none exactly when every buffer is
/// empty.
pub open spec fn merge_choice(bufs: Seq<Seq<Comment>>) -> Option<int> {
    merge_choice_prefix(bufs, bufs.len() as int)
}

/// The chosen front is the earliest-created front, ties to the first
/// source; no choice means every buffer is empty.
pub proof fn lemma_merge_choice_prefix(bufs: Seq<Seq<Comment>>, n: int)
    requires
        0 <= n <= bufs.len(),
    ensures
        match merge_choice_prefix(bufs, n) {
            Some(i) => {
                &&& 0 <= i < n
                &&& bufs[i].len() > 0
                &&& forall|j: int|
                    0 <= j < n && #[trigger] bufs[j].len() > 0 ==> bufs[i][0].created_utc
                        <= bufs[j][0].created_utc
                &&& forall|j: int|
                    0 <= j < i && #[trigger] bufs[j].len() > 0 ==> bufs[i][0].created_utc
                        < bufs[j][0].created_utc
            },
            None => forall|j: int| 0 <= j < n ==> (#[trigger] bufs[j]).len() == 0,
        },
    decreases n,
{
    if n > 0 {
        lemma_merge_choice_prefix(bufs, n - 1);
    }
}

/// How many items are pending across all buffers.
pub open spec fn total_len(bufs: Seq<Seq<Comment>>) -> nat
    decreases bufs.len(),
{
    if bufs.len() == 0 {
        0
    } else {
        bufs[0].len() + total_len(bufs.drop_first())
    }
}

/// Popping the front of one non-empty buffer shrinks the total by one.
pub proof fn lemma_total_len_pop(bufs: Seq<Seq<Comment>>, i: int)
    requires
        0 <= i < bufs.len(),
        bufs[i].len() > 0,
    ensures
        total_len(bufs.update(i, bufs[i].skip(1))) + 1 == total_len(bufs),
    decreases bufs.len(),
{
    let popped = bufs.update(i, bufs[i].skip(1));
    if i == 0 {
        assert(popped.drop_first() =~= bufs.drop_first());
    } else {
        lemma_total_len_pop(bufs.drop_first(), i - 1);
        assert(popped.drop_first() =~= bufs.drop_first().update(
            i - 1,
            bufs.drop_first()[i - 1].skip(1),
        ));
    }
}

/// The full drain: what repeated popping yields until every buffer is
/// empty.
pub open spec fn drain_seq(bufs: Seq<Seq<Comment>>) -> Seq<Comment>
    decreases total_len(bufs),
    via drain_seq_decreases
{
    match merge_choice(bufs) {
        None => Seq::empty(),
        Some(i) => seq![bufs[i][0]] + drain_seq(bufs.update(i, bufs[i].skip(1))),
    }
}

#[via_fn]
proof fn drain_seq_decreases(bufs: Seq<Seq<Comment>>) {
    match merge_choice(bufs) {
        None => {},
        Some(i) => {
            lemma_merge_choice_prefix(bufs, bufs.len() as int);
            lemma_total_len_pop(bufs, i);
        },
    }
}

/// One pop, as [`Merger::next_item`] performs it, is one step of the
/// drain: the chosen front comes out first and the drain of the shrunken
/// buffers is the remainder.
pub proof fn lemma_drain_step(bufs: Seq<Seq<Comment>>)
    requires
        merge_choice(bufs) is Some,
    ensures
        drain_seq(bufs).len() >= 1,
        drain_seq(bufs)[0] == bufs[merge_choice(bufs).unwrap()][0],
        drain_seq(bufs).skip(1) == drain_seq(
            bufs.update(
                merge_choice(bufs).unwrap(),
                bufs[merge_choice(bufs).unwrap()].skip(1),
            ),
        ),
{
    let i = merge_choice(bufs).unwrap();
    let rest = bufs.update(i, bufs[i].skip(1));
    assert(drain_seq(bufs) == seq![bufs[i][0]] + drain_seq(rest));
    assert(drain_seq(bufs).skip(1) =~= drain_seq(rest));
}

/// Every pending item was created at or after `c`.
pub open spec fn all_at_least(bufs: Seq<Seq<Comment>>, c: u64) -> bool {
    forall|j: int, k: int|
        0 <= j < bufs.len() && 0 <= k < bufs[j].len() ==> c <= (#[trigger] bufs[j][k]).created_utc
}

/// No pending item bears the identifier `id`.
pub open spec fn id_absent(bufs: Seq<Seq<Comment>>, id: Seq<char>) -> bool {
    forall|j: int, k: int|
        0 <= j < bufs.len() && 0 <= k < bufs[j].len() ==> (#[trigger] bufs[j][k]).id@ != id
}

/// No two pending items bear the same identifier.
pub open spec fn distinct_ids(bufs: Seq<Seq<Comment>>) -> bool {
    forall|j1: int, k1: int, j2: int, k2: int|
        #![trigger bufs[j1][k1], bufs[j2][k2]]
        0 <= j1 < bufs.len() && 0 <= k1 < bufs[j1].len() && 0 <= j2 < bufs.len() && 0 <= k2
            < bufs[j2].len() && (j1 != j2 || k1 != k2) ==> bufs[j1][k1].id@ != bufs[j2][k2].id@
}

/// A lower bound on every pending creation time bounds the whole drain.
pub proof fn lemma_drain_at_least(bufs: Seq<Seq<Comment>>, c: u64)
    requires
        all_at_least(bufs, c),
    ensures
        forall|t: int|
            0 <= t < drain_seq(bufs).len() ==> c <= (#[trigger] drain_seq(bufs)[t]).created_utc,
    decreases total_len(bufs),
{
    match merge_choice(bufs) {
        None => {},
        Some(i) => {
            lemma_merge_choice_prefix(bufs, bufs.len() as int);
            lemma_total_len_pop(bufs, i);
            let rest = bufs.update(i, bufs[i].skip(1));
            assert(all_at_least(rest, c)) by {
                assert forall|j: int, k: int|
                    0 <= j < rest.len() && 0 <= k < rest[j].len() implies c <= (#[trigger] rest[j][k]).created_utc by {
                    if j == i {
                        assert(rest[j][k] == bufs[i][k + 1]);
                    } else {
                        assert(rest[j][k] == bufs[j][k]);
                    }
                }
            }
            lemma_drain_at_least(rest, c);
            assert(drain_seq(bufs) == seq![bufs[i][0]] + drain_seq(rest));
            assert forall|t: int|
                0 <= t < drain_seq(bufs).len() implies c <= (#[trigger] drain_seq(
                bufs,
            )[t]).created_utc by {
                if t == 0 {
                    assert(drain_seq(bufs)[0] == bufs[i][0]);
                } else {
                    assert(drain_seq(bufs)[t] == drain_seq(rest)[t - 1]);
                }
            }
        },
    }
}

/// An identifier absent from every buffer never appears in the drain.
pub proof fn lemma_drain_id_absent(bufs: Seq<Seq<Comment>>, id: Seq<char>)
    requires
        id_absent(bufs, id),
    ensures
        forall|t: int|
            0 <= t < drain_seq(bufs).len() ==> (#[trigger] drain_seq(bufs)[t]).id@ != id,
    decreases total_len(bufs),
{
    match merge_choice(bufs) {
        None => {},
        Some(i) => {
            lemma_merge_choice_prefix(bufs, bufs.len() as int);
            lemma_total_len_pop(bufs, i);
            let rest = bufs.update(i, bufs[i].skip(1));
            assert(id_absent(rest, id)) by {
                assert forall|j: int, k: int|
                    0 <= j < rest.len() && 0 <= k < rest[j].len() implies (#[trigger] rest[j][k]).id@
                    != id by {
                    if j == i {
                        assert(rest[j][k] == bufs[i][k + 1]);
                    } else {
                        assert(rest[j][k] == bufs[j][k]);
                    }
                }
            }
            lemma_drain_id_absent(rest, id);
            assert(drain_seq(bufs) == seq![bufs[i][0]] + drain_seq(rest));
            assert forall|t: int|
                0 <= t < drain_seq(bufs).len() implies (#[trigger] drain_seq(bufs)[t]).id@
                != id by {
                if t == 0 {
                    assert(drain_seq(bufs)[0] == bufs[i][0]);
                } else {
                    assert(drain_seq(bufs)[t] == drain_seq(rest)[t - 1]);
                }
            }
        },
    }
}

/// With every buffer in chronological order, one full drain yields its
/// items in non-decreasing creation-time order.
pub proof fn lemma_drain_sorted(bufs: Seq<Seq<Comment>>)
    requires
        forall|j: int| 0 <= j < bufs.len() ==> chron(#[trigger] bufs[j]),
    ensures
        chron(drain_seq(bufs)),
    decreases total_len(bufs),
{
    match merge_choice(bufs) {
        None => {},
        Some(i) => {
            lemma_merge_choice_prefix(bufs, bufs.len() as int);
            lemma_total_len_pop(bufs, i);
            let head = bufs[i][0];
            let rest = bufs.update(i, bufs[i].skip(1));
            assert forall|j: int| 0 <= j < rest.len() implies chron(#[trigger] rest[j]) by {
                if j == i {
                    assert(forall|a: int, b: int|
                        0 <= a < b < rest[i].len() ==> (#[trigger] rest[i][a]).created_utc
                            <= (#[trigger] rest[i][b]).created_utc) by {
                        assert(forall|a: int|
                            0 <= a < rest[i].len() ==> #[trigger] rest[i][a] == bufs[i][a + 1]);
                    }
                } else {
                    assert(rest[j] == bufs[j]);
                }
            }
            assert(all_at_least(rest, head.created_utc)) by {
                assert forall|j: int, k: int|
                    0 <= j < rest.len() && 0 <= k < rest[j].len() implies head.created_utc
                    <= (#[trigger] rest[j][k]).created_utc by {
                    if j == i {
                        assert(rest[j][k] == bufs[i][k + 1]);
                        assert(bufs[i][0].created_utc <= bufs[i][k + 1].created_utc);
                    } else {
                        assert(rest[j][k] == bufs[j][k]);
                        assert(bufs[i][0].created_utc <= bufs[j][0].created_utc);
                        assert(bufs[j][0].created_utc <= bufs[j][k].created_utc);
                    }
                }
            }
            lemma_drain_at_least(rest, head.created_utc);
            lemma_drain_sorted(rest);
            assert(drain_seq(bufs) == seq![head] + drain_seq(rest));
            assert forall|a: int, b: int|
                0 <= a < b < drain_seq(bufs).len() implies (#[trigger] drain_seq(
                bufs,
            )[a]).created_utc <= (#[trigger] drain_seq(bufs)[b]).created_utc by {
                if a == 0 {
                    assert(drain_seq(bufs)[b] == drain_seq(rest)[b - 1]);
                } else {
                    assert(drain_seq(bufs)[a] == drain_seq(rest)[a - 1]);
                    assert(drain_seq(bufs)[b] == drain_seq(rest)[b - 1]);
                }
            }
        },
    }
}

/// With no identifier pending twice, one full drain never yields an
/// identifier twice: an item, once delivered, is gone.
pub proof fn lemma_drain_distinct(bufs: Seq<Seq<Comment>>)
    requires
        distinct_ids(bufs),
    ensures
        forall|t1: int, t2: int|
            0 <= t1 < t2 < drain_seq(bufs).len() ==> (#[trigger] drain_seq(bufs)[t1]).id@
                != (#[trigger] drain_seq(bufs)[t2]).id@,
    decreases total_len(bufs),
{
    match merge_choice(bufs) {
        None => {},
        Some(i) => {
            lemma_merge_choice_prefix(bufs, bufs.len() as int);
            lemma_total_len_pop(bufs, i);
            let head = bufs[i][0];
            let rest = bufs.update(i, bufs[i].skip(1));
            assert(distinct_ids(rest)) by {
                assert forall|j1: int, k1: int, j2: int, k2: int|
                    #![trigger rest[j1][k1], rest[j2][k2]]
                    0 <= j1 < rest.len() && 0 <= k1 < rest[j1].len() && 0 <= j2 < rest.len() && 0
                        <= k2 < rest[j2].len() && (j1 != j2 || k1 != k2) implies rest[j1][k1].id@
                    != rest[j2][k2].id@ by {
                    let b1 = if j1 == i { k1 + 1 } else { k1 };
                    let b2 = if j2 == i { k2 + 1 } else { k2 };
                    assert(rest[j1][k1] == bufs[j1][b1]);
                    assert(rest[j2][k2] == bufs[j2][b2]);
                }
            }
            assert(id_absent(rest, head.id@)) by {
                assert forall|j: int, k: int|
                    0 <= j < rest.len() && 0 <= k < rest[j].len() implies (#[trigger] rest[j][k]).id@
                    != head.id@ by {
                    let b = if j == i { k + 1 } else { k };
                    assert(rest[j][k] == bufs[j][b]);
                    assert(bufs[j][b].id@ != bufs[i][0].id@);
                }
            }
            lemma_drain_id_absent(rest, head.id@);
            lemma_drain_distinct(rest);
            assert(drain_seq(bufs) == seq![head] + drain_seq(rest));
            assert forall|t1: int, t2: int|
                0 <= t1 < t2 < drain_seq(bufs).len() implies (#[trigger] drain_seq(
                bufs,
            )[t1]).id@ != (#[trigger] drain_seq(bufs)[t2]).id@ by {
                if t1 == 0 {
                    assert(drain_seq(bufs)[t2] == drain_seq(rest)[t2 - 1]);
                } else {
                    assert(drain_seq(bufs)[t1] == drain_seq(rest)[t1 - 1]);
                    assert(drain_seq(bufs)[t2] == drain_seq(rest)[t2 - 1]);
                }
            }
        },
    }
}

/// The merger across all sources.
pub struct Merger {
    /// One state per source, in the fixed iteration order of the sources.
    pub sources: Vec<SourceState>,
}

impl Merger {
    pub open spec fn wf(self) -> bool {
        forall|i: int| 0 <= i < self.sources@.len() ==> (#[trigger] self.sources@[i]).wf()
    }

    /// The pending buffers, as the merge reads them.
    pub open spec fn caches(self) -> Seq<Seq<Comment>> {
        Seq::new(self.sources@.len(), |i: int| self.sources@[i].cache@)
    }

    /// One fresh, empty state per source.
    pub fn new(count: usize) -> (m: Merger)
        ensures
            m.sources@.len() == count,
            forall|i: int|
                0 <= i < count ==> (#[trigger] m.sources@[i]).recent_names@.len() == 0
                    && m.sources@[i].cache@.len() == 0,
            m.wf(),
    {
        let mut sources: Vec<SourceState> = Vec::new();
        let mut k: usize = 0;
        while k < count
            invariant
                k <= count,
                sources@.len() == k,
                forall|i: int|
                    0 <= i < k ==> (#[trigger] sources@[i]).recent_names@.len() == 0
                        && sources@[i].cache@.len() == 0,
        decreases count - k,
        {
            sources.push(SourceState::new());
            k = k + 1;
        }
        Merger { sources }
    }

    /// Pops the globally next pending item: the front item with the
    /// smallest creation time across all buffers, an earlier source
    /// winning ties. Yields nothing exactly when every buffer is empty,
    /// and never touches the cursor windows.
    pub fn next_item(&mut self) -> (r: Option<Comment>)
        ensures
            final(self).sources@.len() == old(self).sources@.len(),
            match r {
                None => {
                    &&& merge_choice(old(self).caches()) is None
                    &&& final(self).sources@ == old(self).sources@
                },
                Some(c) => {
                    let i = merge_choice(old(self).caches()).unwrap();
                    &&& merge_choice(old(self).caches()) is Some
                    &&& c == old(self).caches()[i][0]
                    &&& final(self).sources@[i].cache@ == old(self).sources@[i].cache@.skip(1)
                    &&& final(self).sources@[i].recent_names@ == old(
                        self,
                    ).sources@[i].recent_names@
                    &&& forall|k: int|
                        0 <= k < old(self).sources@.len() && k != i ==> final(self).sources@[k]
                            == old(self).sources@[k]
                },
            },
            old(self).wf() ==> final(self).wf(),
    {
        let n = self.sources.len();
        let mut min_idx: usize = 0;
        let mut found = false;
        let mut best: u64 = 0;
        let mut idx: usize = 0;
        while idx < n
            invariant
                idx <= n,
                self.sources@ == old(self).sources@,
                n == self.sources@.len(),
                found ==> min_idx < idx,
                match merge_choice_prefix(self.caches(), idx as int) {
                    None => !found,
                    Some(i) => found && i == min_idx && best == self.caches()[i][0].created_utc,
                },
            decreases n - idx,
        {
            if self.sources[idx].cache.len() > 0 {
                let c = self.sources[idx].cache[0].created_utc;
                if !found || c < best {
                    found = true;
                    min_idx = idx;
                    best = c;
                }
            }
            idx = idx + 1;
        }
        if found {
            proof {
                lemma_merge_choice_prefix(self.caches(), n as int);
            }
            let c = self.sources[min_idx].cache.pop_front();
            proof {
                assert(self.sources@[min_idx as int].cache@ =~= old(
                    self,
                ).sources@[min_idx as int].cache@.skip(1));
            }
            c
        } else {
            None
        }
    }
}

} // verus!
