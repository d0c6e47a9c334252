//! Enumeration of the identifiers of one kind of resource in one cluster.
//!
//! The enumeration call returns the identifiers page by page, each page with
//! a continuation token for the next one. A [`Lister`] decides what to ask
//! for and when to stop; the caller makes the calls and hands each response
//! back.

use crate::records::{lemma_texts_concat, opt_text, texts};
use vstd::prelude::*;

verus! {

/// One response of the enumeration call.
#[derive(Debug)]
pub struct Page {
    /// The identifiers of this page, in the order of the response.
    pub identifiers: Vec<String>,
    /// The token that continues the enumeration; absent on the last page.
    pub next_token: Option<String>,
}

/// What a [`Page`] holds, as mathematical values.
pub struct PageView {
    pub identifiers: Seq<Seq<char>>,
    pub next_token: Option<Seq<char>>,
}

impl View for Page {
    type V = PageView;

    open spec fn view(&self) -> PageView {
        PageView { identifiers: texts(self.identifiers@), next_token: opt_text(self.next_token) }
    }
}

/// An enumeration that still has a page to ask for.
#[derive(Debug)]
pub struct Lister {
    collected: Vec<String>,
    next_token: Option<String>,
}

/// What a [`Lister`] holds: the identifiers received so far and the token
/// that the next call carries.
pub struct ListerView {
    pub collected: Seq<Seq<char>>,
    pub next_token: Option<Seq<char>>,
}

impl View for Lister {
    type V = ListerView;

    closed spec fn view(&self) -> ListerView {
        ListerView { collected: texts(self.collected@), next_token: opt_text(self.next_token) }
    }
}

/// Where an enumeration stands after a page.
#[derive(Debug)]
pub enum ListStep {
    /// Another page is to be asked for.
    Continue(Lister),
    /// The last page has arrived: these are all the identifiers.
    Finished(Vec<String>),
}

/// What a [`ListStep`] holds, as mathematical values.
pub enum ListStepView {
    Continue(ListerView),
    Finished(Seq<Seq<char>>),
}

impl View for ListStep {
    type V = ListStepView;

    open spec fn view(&self) -> ListStepView {
        match self {
            ListStep::Continue(lister) => ListStepView::Continue(lister@),
            ListStep::Finished(identifiers) => ListStepView::Finished(texts(identifiers@)),
        }
    }
}

/// The enumeration before its first call: nothing received, no token.
pub open spec fn start() -> ListerView {
    ListerView { collected: Seq::empty(), next_token: None }
}

/// The enumeration after `page` has arrived in `state`: the page's
/// identifiers follow those received before, and the enumeration goes on
/// exactly when the page carries a token.
pub open spec fn accept_page(state: ListerView, page: PageView) -> ListStepView {
    let collected = state.collected + page.identifiers;
    match page.next_token {
        Some(token) => ListStepView::Continue(ListerView { collected, next_token: Some(token) }),
        None => ListStepView::Finished(collected),
    }
}

/// Where an enumeration stands after the responses to its first calls. Once
/// it has finished or failed, later responses are never asked for and change
/// nothing.
pub open spec fn listing<E>(responses: Seq<Result<PageView, E>>) -> Result<ListStepView, E>
    decreases responses.len(),
{
    if responses.len() == 0 {
        Ok(ListStepView::Continue(start()))
    } else {
        match listing(responses.drop_last()) {
            Ok(ListStepView::Continue(state)) => match responses.last() {
                Ok(page) => Ok(accept_page(state, page)),
                Err(error) => Err(error),
            },
            ended => ended,
        }
    }
}

/// The identifiers of a run of pages, page after page.
pub open spec fn identifiers_of(pages: Seq<PageView>) -> Seq<Seq<char>> {
    pages.flat_map(|p: PageView| p.identifiers)
}

/// A run of pages as the responses of calls that all succeeded.
pub open spec fn delivered<E>(pages: Seq<PageView>) -> Seq<Result<PageView, E>> {
    pages.map_values(|p: PageView| Ok::<PageView, E>(p))
}

/// Whether `pages` is a whole enumeration: every page but the last carries a
/// token, and the last carries none.
pub open spec fn complete(pages: Seq<PageView>) -> bool {
    &&& pages.len() > 0
    &&& forall|i: int| 0 <= i < pages.len() - 1 ==> (#[trigger] pages[i]).next_token is Some
    &&& pages.last().next_token is None
}

/// The token that the call for page `k` carries: none for the first page,
/// and the token of the page before for every other.
pub open spec fn token_for(pages: Seq<PageView>, k: int) -> Option<Seq<char>> {
    if k == 0 {
        None
    } else {
        pages[k - 1].next_token
    }
}

impl Lister {
    /// An enumeration that has not made a call yet.
    pub fn new() -> (lister: Lister)
        ensures
            lister@ == start(),
    {
        let lister = Lister { collected: Vec::new(), next_token: None };
        assert(lister@.collected =~= Seq::<Seq<char>>::empty());
        lister
    }

    /// The continuation token that the next call carries; none on the first
    /// call.
    pub fn next_token(&self) -> (token: Option<String>)
        ensures
            opt_text(token) == self@.next_token,
    {
        match &self.next_token {
            Some(token) => Some(token.clone()),
            None => None,
        }
    }

    /// Takes the response to the call that was last asked for. A page is
    /// appended to what was received before, and the enumeration finishes
    /// when the page carries no token. A failed call fails the enumeration
    /// with the call's own error, and nothing of what was received is kept.
    pub fn accept<E>(self, response: Result<Page, E>) -> (step: Result<ListStep, E>)
        ensures
            match response {
                Ok(page) => step matches Ok(next) && next@ == accept_page(self@, page@),
                Err(error) => step == Err::<ListStep, E>(error),
            },
    {
        match response {
            Ok(page) => {
                let Page { identifiers, next_token } = page;
                let mut identifiers = identifiers;
                let mut collected = self.collected;
                proof {
                    lemma_texts_concat(collected@, identifiers@);
                }
                collected.append(&mut identifiers);
                match next_token {
                    Some(token) => Ok(
                        ListStep::Continue(Lister { collected, next_token: Some(token) }),
                    ),
                    None => Ok(ListStep::Finished(collected)),
                }
            },
            Err(error) => Err(error),
        }
    }
}

/// Over a whole enumeration of `pages`, a call is made for each page and for
/// no other: before page `k` arrives the enumeration holds the identifiers of
/// the pages before it, in page order, and asks with the token of page
/// `k - 1`; when the last page has arrived it finishes with the identifiers
/// of all the pages, in page order.
pub proof fn lemma_listing_follows_pages<E>(pages: Seq<PageView>, k: int)
    requires
        complete(pages),
        0 <= k <= pages.len(),
    ensures
        k < pages.len() ==> listing(delivered::<E>(pages.take(k))) == Ok::<ListStepView, E>(
            ListStepView::Continue(
                ListerView {
                    collected: identifiers_of(pages.take(k)),
                    next_token: token_for(pages, k),
                },
            ),
        ),
        k == pages.len() ==> listing(delivered::<E>(pages)) == Ok::<ListStepView, E>(
            ListStepView::Finished(identifiers_of(pages)),
        ),
    decreases k,
{
    let extract = |p: PageView| p.identifiers;
    if k == 0 {
        assert(delivered::<E>(pages.take(0)) =~= Seq::<Result<PageView, E>>::empty());
        assert(identifiers_of(pages.take(0)) =~= Seq::<Seq<char>>::empty());
    } else {
        lemma_listing_follows_pages::<E>(pages, k - 1);
        let before = pages.take(k - 1);
        let now = pages.take(k);
        assert(delivered::<E>(now).drop_last() =~= delivered::<E>(before));
        assert(delivered::<E>(now).last() == Ok::<PageView, E>(pages[k - 1]));
        pages.lemma_flat_map_take_append(extract, k - 1);
        assert(identifiers_of(now) == identifiers_of(before) + pages[k - 1].identifiers);
        if k == pages.len() {
            assert(pages.take(k) == pages);
        }
    }
}

/// The first call that fails ends the enumeration with that call's error,
/// whatever the pages before it held and whatever would have followed.
pub proof fn lemma_listing_fails_with_first_error<E>(
    responses: Seq<Result<PageView, E>>,
    k: int,
    error: E,
)
    requires
        0 <= k < responses.len(),
        responses[k] == Err::<PageView, E>(error),
        forall|i: int|
            0 <= i < k ==> (#[trigger] responses[i] matches Ok(page) && page.next_token is Some),
    ensures
        listing(responses) == Err::<ListStepView, E>(error),
    decreases responses.len(),
{
    lemma_listing_goes_on(responses.take(k), k);
    if responses.len() == k + 1 {
        assert(responses.drop_last() == responses.take(k));
    } else {
        let shorter = responses.drop_last();
        lemma_listing_fails_with_first_error(shorter, k, error);
    }
}

/// While every call succeeds with a page that carries a token, the
/// enumeration goes on.
proof fn lemma_listing_goes_on<E>(responses: Seq<Result<PageView, E>>, k: int)
    requires
        k == responses.len(),
        forall|i: int|
            0 <= i < k ==> (#[trigger] responses[i] matches Ok(page) && page.next_token is Some),
    ensures
        listing(responses) matches Ok(ListStepView::Continue(_)),
    decreases k,
{
    if k > 0 {
        lemma_listing_goes_on(responses.drop_last(), k - 1);
        assert(responses.last() == responses[k - 1]);
    }
}

} // verus!
