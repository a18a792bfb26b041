//! The pagination walker: counting objects through a paginated listing
//! API. Each call returns a page (an item count and an optional
//! continuation token); the walker keeps calling while a token is present
//! and stops at the first page without one. A page with zero items but a
//! token is not the end — only the absent token is.

use vstd::prelude::*;

verus! {

/// One page returned by the listing API: how many objects it held and the
/// continuation token, if more results remain.
#[derive(Clone, Debug)]
pub struct Page {
    pub item_count: usize,
    pub next_token: Option<String>,
}

/// Whether a recorded page sequence ends the walk: some page the walker
/// reaches carries no continuation token.
pub open spec fn walk_complete(pages: Seq<Page>) -> bool
    decreases pages.len(),
{
    if pages.len() == 0 {
        false
    } else if pages[0].next_token is None {
        true
    } else {
        walk_complete(pages.drop_first())
    }
}

/// How many listing calls the walk makes: every page up to and including
/// the first one without a continuation token.
pub open spec fn walk_calls(pages: Seq<Page>) -> int
    decreases pages.len(),
{
    if pages.len() == 0 {
        0
    } else if pages[0].next_token is None {
        1
    } else {
        1 + walk_calls(pages.drop_first())
    }
}

/// The total number of objects the walk counts: the item counts of every
/// page it consumes, summed.
pub open spec fn walk_count(pages: Seq<Page>) -> int
    decreases pages.len(),
{
    if pages.len() == 0 {
        0
    } else if pages[0].next_token is None {
        pages[0].item_count as int
    } else {
        pages[0].item_count + walk_count(pages.drop_first())
    }
}

/// Counts all objects over a recorded sequence of pages, as `walk_count`
/// and `walk_calls` describe. Returns the total and the number of calls
/// made, or `None` when every recorded page still carried a continuation
/// token (the recording stopped before the listing was exhausted).
pub fn count_listed(pages: &Vec<Page>) -> (r: Option<(u128, usize)>)
    ensures
        match r {
            Some(v) => walk_complete(pages@) && v.0 as int == walk_count(pages@) && v.1 as int
                == walk_calls(pages@) && v.1 <= pages@.len(),
            None => !walk_complete(pages@),
        },
{
    let ghost ps = pages@;
    let mut count: u128 = 0;
    let mut k: usize = 0;
    proof {
        assert(ps.skip(0) =~= ps);
    }
    while k < pages.len()
        invariant
            0 <= k <= pages.len(),
            pages@ == ps,
            count as int <= k * (usize::MAX as int),
            walk_complete(ps) == walk_complete(ps.skip(k as int)),
            walk_count(ps) == count + walk_count(ps.skip(k as int)),
            walk_calls(ps) == k + walk_calls(ps.skip(k as int)),
        decreases pages.len() - k,
    {
        let items = pages[k].item_count;
        proof {
            assert(ps.skip(k as int)[0] == ps[k as int]);
            assert(ps.skip(k as int).drop_first() =~= ps.skip(k + 1));
            assert((k as int) * (usize::MAX as int) + (usize::MAX as int) == (k + 1) * (
            usize::MAX as int)) by (nonlinear_arith);
            assert((k + 1) * (usize::MAX as int) <= (usize::MAX as int) * (usize::MAX as int))
                by (nonlinear_arith)
                requires
                    0 <= k + 1 <= usize::MAX as int,
            ;
            assert((usize::MAX as int) * (usize::MAX as int) < u128::MAX as int);
        }
        count = count + (items as u128);
        if pages[k].next_token.is_none() {
            return Some((count, k + 1));
        }
        k = k + 1;
    }
    None
}

/// The walker's running state when pages arrive one call at a time: the
/// objects counted so far, the calls made, and whether the last page ended
/// the walk. The counters saturate at their types' limits rather than
/// wrap.
#[derive(Clone, Copy, Debug, PartialEq, Eq, Structural)]
pub struct WalkState {
    pub count: u128,
    pub calls: u64,
    pub done: bool,
}

/// What absorbing one page does to the walker's state.
pub open spec fn absorb_model(st: WalkState, item_count: usize, has_next_token: bool) -> WalkState {
    WalkState {
        count: if st.count + item_count > u128::MAX {
            u128::MAX
        } else {
            (st.count + item_count) as u128
        },
        calls: if st.calls == u64::MAX {
            u64::MAX
        } else {
            (st.calls + 1) as u64
        },
        done: !has_next_token,
    }
}

impl WalkState {
    pub fn new() -> (r: Self)
        ensures
            r == (WalkState { count: 0, calls: 0, done: false }),
    {
        WalkState { count: 0, calls: 0, done: false }
    }

    /// Absorbs one page: adds its items to the count, counts the call, and
    /// ends the walk exactly when the page carried no continuation token.
    pub fn absorb(&mut self, item_count: usize, has_next_token: bool)
        requires
            !old(self).done,
        ensures
            *final(self) == absorb_model(*old(self), item_count, has_next_token),
    {
        if self.count > u128::MAX - (item_count as u128) {
            self.count = u128::MAX;
        } else {
            self.count = self.count + (item_count as u128);
        }
        if self.calls < u64::MAX {
            self.calls = self.calls + 1;
        }
        self.done = !has_next_token;
    }
}

/// The state a walker reaches when pages arrive one at a time: each page
/// is absorbed until one ends the walk or the recording runs out.
pub open spec fn stream_walk(st: WalkState, pages: Seq<Page>) -> WalkState
    decreases pages.len(),
{
    if pages.len() == 0 || st.done {
        st
    } else {
        stream_walk(
            absorb_model(st, pages[0].item_count, pages[0].next_token is Some),
            pages.drop_first(),
        )
    }
}

proof fn lemma_walk_count_nonneg(pages: Seq<Page>)
    ensures
        walk_count(pages) >= 0,
        walk_calls(pages) >= 0,
    decreases pages.len(),
{
    if pages.len() > 0 && !(pages[0].next_token is None) {
        lemma_walk_count_nonneg(pages.drop_first());
    }
}

proof fn lemma_stream_walk_general(st: WalkState, pages: Seq<Page>)
    requires
        !st.done,
        walk_complete(pages),
        st.count + walk_count(pages) <= u128::MAX,
        st.calls + walk_calls(pages) <= u64::MAX,
    ensures
        stream_walk(st, pages) == (WalkState {
            count: (st.count + walk_count(pages)) as u128,
            calls: (st.calls + walk_calls(pages)) as u64,
            done: true,
        }),
    decreases pages.len(),
{
    lemma_walk_count_nonneg(pages.drop_first());
    let st1 = absorb_model(st, pages[0].item_count, pages[0].next_token is Some);
    if pages[0].next_token is None {
        assert(stream_walk(st, pages) == stream_walk(st1, pages.drop_first()));
        assert(st1.done);
    } else {
        lemma_stream_walk_general(st1, pages.drop_first());
    }
}

/// Feeding the walker the pages one call at a time gives the same total
/// and the same number of calls as counting over the recorded pages does,
/// as long as the totals fit their counters.
pub proof fn lemma_stream_walk_agrees(pages: Seq<Page>)
    requires
        walk_complete(pages),
        walk_count(pages) <= u128::MAX,
        walk_calls(pages) <= u64::MAX,
    ensures
        stream_walk(WalkState { count: 0, calls: 0, done: false }, pages) == (WalkState {
            count: walk_count(pages) as u128,
            calls: walk_calls(pages) as u64,
            done: true,
        }),
{
    lemma_stream_walk_general(WalkState { count: 0, calls: 0, done: false }, pages);
}

} // verus!
