//! Watermark and pagination state of the event fetcher.
//!
//! The fetcher drains a block range `[from, to]` page by page. A page that
//! comes back with a continuation token keeps the range fixed; only a page
//! without one means the range is exhausted, and exactly then the watermark
//! `from` advances to `to`. When the range is empty the fetcher is caught
//! up with the chain head and polls for a new one.
//!
//! The network calls themselves live outside this crate; the surrounding
//! loop feeds their results (the polled height, the page's continuation
//! token) into this state machine and obeys what it says.

use vstd::prelude::*;

verus! {

/// The block count the initial scan reaches back: approximates one hour of
/// history at the chain's block rate.
pub const BLOCKS_IN_1_HOUR: u64 = 120;

/// The fetcher's ingestion progress.
pub struct FetcherState {
    /// Lower end of the range still being drained; advances only when a
    /// page arrives without a continuation token, never mid-page.
    pub from_block: u64,
    /// Upper end of the range: the chain head when it was last refreshed.
    pub to_block: u64,
    /// The cursor to resume the query with, `None` when a range starts.
    pub continuation_token: Option<String>,
}

impl FetcherState {
    /// The initial scan window: one hour of blocks below the current head.
    pub fn init(height: u64) -> (r: FetcherState)
        requires
            height >= BLOCKS_IN_1_HOUR,
        ensures
            r.to_block == height,
            r.from_block == height - BLOCKS_IN_1_HOUR,
            r.continuation_token is None,
    {
        FetcherState {
            from_block: height - BLOCKS_IN_1_HOUR,
            to_block: height,
            continuation_token: None,
        }
    }

    /// The range is drained; the chain head must be polled before the next
    /// query.
    pub open spec fn caught_up(self) -> bool {
        self.from_block == self.to_block
    }

    /// Whether the surrounding loop must sleep and poll a new chain head.
    pub fn needs_poll(&self) -> (r: bool)
        ensures
            r == self.caught_up(),
    {
        self.from_block == self.to_block
    }

    /// Adopts a freshly polled chain head as the new upper end; the
    /// watermark and the cursor stay as they are.
    pub fn apply_height(&mut self, height: u64)
        ensures
            final(self).to_block == height,
            final(self).from_block == old(self).from_block,
            final(self).continuation_token == old(self).continuation_token,
    {
        self.to_block = height;
    }

    /// Records the outcome of one page query. The watermark advances
    /// exactly when the page came back without a continuation token (the
    /// range is drained); a page with a token keeps the range fixed and
    /// only stores the token for the next query.
    pub fn apply_page(&mut self, next_token: Option<String>)
        ensures
            *final(self) == page_step(*old(self), next_token),
            final(self).to_block == old(self).to_block,
            final(self).continuation_token == next_token,
            next_token is Some ==> final(self).from_block == old(self).from_block,
            next_token is None ==> final(self).from_block == old(self).to_block,
    {
        if next_token.is_none() {
            self.from_block = self.to_block;
        }
        self.continuation_token = next_token;
    }
}

/// What one page outcome does to the state: exactly what `apply_page`
/// promises, as a value.
pub open spec fn page_step(s: FetcherState, token: Option<String>) -> FetcherState {
    FetcherState {
        from_block: if token is None {
            s.to_block
        } else {
            s.from_block
        },
        to_block: s.to_block,
        continuation_token: token,
    }
}

/// The state after a whole run of page outcomes, applied in order.
pub open spec fn pages_applied(s: FetcherState, tokens: Seq<Option<String>>) -> FetcherState
    decreases tokens.len(),
{
    if tokens.len() == 0 {
        s
    } else {
        page_step(pages_applied(s, tokens.drop_last()), tokens.last())
    }
}

/// Law: the watermark does not advance until a page without a continuation
/// token is processed. Over any run of pages that all carry one, both ends
/// of the range stay exactly where they were; only the page that carries
/// none moves `from` up to `to`.
pub proof fn lemma_watermark_holds_until_drained(s: FetcherState, tokens: Seq<Option<String>>)
    requires
        forall|i: int| 0 <= i < tokens.len() ==> tokens[i] is Some,
    ensures
        pages_applied(s, tokens).from_block == s.from_block,
        pages_applied(s, tokens).to_block == s.to_block,
        pages_applied(s, tokens.push(None)).from_block == s.to_block,
    decreases tokens.len(),
{
    if tokens.len() > 0 {
        assert(forall|i: int| 0 <= i < tokens.len() - 1 ==> tokens.drop_last()[i] == tokens[i]);
        lemma_watermark_holds_until_drained(s, tokens.drop_last());
    }
    assert(tokens.push(None).drop_last() =~= tokens);
    assert(tokens.push(None).last() is None);
}

} // verus!
