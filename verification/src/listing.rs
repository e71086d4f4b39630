//! Listing all shards of a stream, page by page.

use crate::error::Error;
use crate::types::output::GetShardsOutput;
use crate::types::request::{ShardsRequest, ShardsRequestView};
use crate::types::shard::{text, Shard};
use vstd::prelude::*;

verus! {

/// The stream that is listed, and its shards so far.
#[derive(Debug)]
pub struct ShardListing {
    stream_arn: String,
    shards: Vec<Shard>,
}

/// The contents of a [`ShardListing`].
pub struct ShardListingView {
    /// The stream.
    pub stream_arn: Seq<char>,
    /// Its shards so far.
    pub shards: Seq<Shard>,
}

/// How a listing goes on.
#[derive(Debug)]
pub enum ListingStep {
    /// A page is to be asked for with this request.
    Next(ShardListing, ShardsRequest),
    /// The listing is complete, or a page could not be had.
    Done(Result<Vec<Shard>, Error>),
}

/// The contents of a [`ListingStep`].
pub enum ListingStepView {
    /// The listing so far, and the request for its next page.
    Next(ShardListingView, ShardsRequestView),
    /// All shards, or the error.
    Done(Result<Seq<Shard>, Error>),
}

impl View for ShardListing {
    type V = ShardListingView;

    closed spec fn view(&self) -> ShardListingView {
        ShardListingView { stream_arn: self.stream_arn@, shards: self.shards@ }
    }
}

impl View for ListingStep {
    type V = ListingStepView;

    open spec fn view(&self) -> ListingStepView {
        match self {
            ListingStep::Next(listing, request) => ListingStepView::Next(listing@, request@),
            ListingStep::Done(Ok(shards)) => ListingStepView::Done(Ok(shards@)),
            ListingStep::Done(Err(e)) => ListingStepView::Done(Err(*e)),
        }
    }
}

impl ShardListingView {
    /// The listing of a stream before its first page.
    pub open spec fn new(stream_arn: Seq<char>) -> ShardListingView {
        ShardListingView { stream_arn, shards: Seq::empty() }
    }

    /// The listing with more shards.
    pub open spec fn with(self, more: Seq<Shard>) -> ShardListingView {
        ShardListingView { shards: self.shards + more, ..self }
    }

    /// The request for the page of the stream behind `start`, or for its first
    /// page.
    pub open spec fn request(self, start: Option<Seq<char>>) -> ShardsRequestView {
        ShardsRequestView { stream_arn: self.stream_arn, exclusive_start_shard_id: start }
    }
}

/// How a listing goes on behind the answer to a request for a page: with the page
/// behind the id that the answer names, of the same stream.
pub open spec fn after_page(
    listing: ShardListingView,
    page: Result<GetShardsOutput, Error>,
) -> ListingStepView {
    match page {
        Err(e) => ListingStepView::Done(Err(e)),
        Ok(page) => match page.last_shard_id {
            Some(start) => ListingStepView::Next(
                listing.with(page.shards@),
                listing.request(Some(start@)),
            ),
            None => ListingStepView::Done(Ok(listing.with(page.shards@).shards)),
        },
    }
}

impl ShardListing {
    /// Starts the listing of a stream. Its first page is asked for without a shard
    /// id.
    pub fn start(stream_arn: String) -> (step: ListingStep)
        ensures
            step@ == ({
                let listing = ShardListingView::new(stream_arn@);
                ListingStepView::Next(listing, listing.request(None))
            }),
            step matches ListingStep::Next(listing, request) && listing@.stream_arn == stream_arn@
                && listing@.shards.len() == 0 && request.stream_arn@ == stream_arn@
                && request.exclusive_start_shard_id is None,
    {
        let request = ShardsRequest {
            stream_arn: stream_arn.clone(),
            exclusive_start_shard_id: None,
        };
        ListingStep::Next(ShardListing { stream_arn, shards: Vec::new() }, request)
    }

    /// Adds a page to the listing.
    pub fn page(self, page: Result<GetShardsOutput, Error>) -> (step: ListingStep)
        ensures
            step@ == after_page(self@, page),
            match page {
                Err(e) => step == ListingStep::Done(Err(e)),
                Ok(page) => match page.last_shard_id {
                    Some(start) => step matches ListingStep::Next(listing, request)
                        && listing@.stream_arn == self@.stream_arn && listing@.shards
                        == self@.shards + page.shards@ && request.stream_arn@ == self@.stream_arn
                        && request.exclusive_start_shard_id == Some(start),
                    None => step matches ListingStep::Done(Ok(shards)) && shards@ == self@.shards
                        + page.shards@,
                },
            },
    {
        match page {
            Err(e) => ListingStep::Done(Err(e)),
            Ok(page) => {
                let mut shards = self.shards;
                let mut more = page.shards;
                shards.append(&mut more);
                match page.last_shard_id {
                    Some(start) => {
                        let request = ShardsRequest {
                            stream_arn: self.stream_arn.clone(),
                            exclusive_start_shard_id: Some(start),
                        };
                        ListingStep::Next(
                            ShardListing { stream_arn: self.stream_arn, shards },
                            request,
                        )
                    },
                    None => ListingStep::Done(Ok(shards)),
                }
            },
        }
    }
}

/// What a listing comes to when its requests are answered by `pages`, one after
/// the other. `None` while it still asks for a page.
pub open spec fn listing_result(
    listing: ShardListingView,
    pages: Seq<Result<GetShardsOutput, Error>>,
) -> Option<Result<Seq<Shard>, Error>>
    decreases pages.len(),
{
    if pages.len() == 0 {
        None
    } else {
        match after_page(listing, pages.first()) {
            ListingStepView::Next(listing, _) => listing_result(listing, pages.drop_first()),
            ListingStepView::Done(result) => Some(result),
        }
    }
}

/// The request that stands behind `pages`, where `request` stood before them.
/// `None` if the listing came to its end.
pub open spec fn request_behind(
    listing: ShardListingView,
    request: ShardsRequestView,
    pages: Seq<Result<GetShardsOutput, Error>>,
) -> Option<ShardsRequestView>
    decreases pages.len(),
{
    if pages.len() == 0 {
        Some(request)
    } else {
        match after_page(listing, pages.first()) {
            ListingStepView::Next(listing, request) => request_behind(
                listing,
                request,
                pages.drop_first(),
            ),
            ListingStepView::Done(_) => None,
        }
    }
}

/// Whether a page was had, and is not the last one.
pub open spec fn is_inner_page(page: Result<GetShardsOutput, Error>) -> bool {
    page is Ok && page->Ok_0.last_shard_id is Some
}

/// The shards of pages, in their order.
pub open spec fn shards_of_pages(pages: Seq<Result<GetShardsOutput, Error>>) -> Seq<Shard> {
    pages.map_values(|page: Result<GetShardsOutput, Error>| page->Ok_0.shards@).flatten()
}

proof fn lemma_listing_result(
    listing: ShardListingView,
    pages: Seq<Result<GetShardsOutput, Error>>,
    last: Result<GetShardsOutput, Error>,
)
    requires
        forall|i: int| 0 <= i < pages.len() ==> is_inner_page(#[trigger] pages[i]),
        !is_inner_page(last),
    ensures
        listing_result(listing, pages.push(last)) == Some(
            match last {
                Err(e) => Err(e),
                Ok(last) => Ok(listing.shards + shards_of_pages(pages) + last.shards@),
            },
        ),
    decreases pages.len(),
{
    let all = pages.push(last);
    let listed = listing.shards;
    let shards = |page: Result<GetShardsOutput, Error>| page->Ok_0.shards@;
    if pages.len() == 0 {
        assert(shards_of_pages(pages) =~= Seq::empty());
        assert(all.first() == last);
        assert(listed + shards_of_pages(pages) =~= listed);
    } else {
        let first = pages[0]->Ok_0.shards@;
        assert(is_inner_page(pages[0]));
        assert(all.first() == pages[0]);
        assert(all.drop_first() =~= pages.drop_first().push(last));
        assert forall|i: int| 0 <= i < pages.drop_first().len() implies is_inner_page(
            #[trigger] pages.drop_first()[i],
        ) by {
            assert(is_inner_page(pages[i + 1]));
        }
        lemma_listing_result(listing.with(first), pages.drop_first(), last);
        assert(pages.map_values(shards).first() == first);
        assert(pages.map_values(shards).drop_first() =~= pages.drop_first().map_values(shards));
        assert(shards_of_pages(pages) == first + shards_of_pages(pages.drop_first()));
        assert(listed + shards_of_pages(pages) =~= (listed + first) + shards_of_pages(
            pages.drop_first(),
        ));
    }
}

/// A listing comes to the shards of all its pages, in the order in which the
/// pages came, once a page names no further one.
pub proof fn law_listing_is_complete(
    stream_arn: Seq<char>,
    pages: Seq<Result<GetShardsOutput, Error>>,
    last: Result<GetShardsOutput, Error>,
)
    requires
        forall|i: int| 0 <= i < pages.len() ==> is_inner_page(#[trigger] pages[i]),
        last is Ok,
        last->Ok_0.last_shard_id is None,
    ensures
        listing_result(ShardListingView::new(stream_arn), pages.push(last)) == Some(
            Ok::<Seq<Shard>, Error>(shards_of_pages(pages) + last->Ok_0.shards@),
        ),
{
    lemma_listing_result(ShardListingView::new(stream_arn), pages, last);
    assert(Seq::<Shard>::empty() + shards_of_pages(pages) =~= shards_of_pages(pages));
}

/// A page that cannot be had ends a listing with its error, whatever was listed
/// before.
pub proof fn law_listing_fails_with_its_page(
    stream_arn: Seq<char>,
    pages: Seq<Result<GetShardsOutput, Error>>,
    error: Error,
)
    requires
        forall|i: int| 0 <= i < pages.len() ==> is_inner_page(#[trigger] pages[i]),
    ensures
        listing_result(ShardListingView::new(stream_arn), pages.push(Err(error))) == Some(
            Err::<Seq<Shard>, Error>(error),
        ),
{
    lemma_listing_result(ShardListingView::new(stream_arn), pages, Err(error));
}

/// A listing goes on as long as its pages name further ones.
pub proof fn law_listing_goes_on(
    listing: ShardListingView,
    pages: Seq<Result<GetShardsOutput, Error>>,
)
    requires
        forall|i: int| 0 <= i < pages.len() ==> is_inner_page(#[trigger] pages[i]),
    ensures
        listing_result(listing, pages) is None,
    decreases pages.len(),
{
    if pages.len() > 0 {
        assert(is_inner_page(pages[0]));
        assert forall|i: int| 0 <= i < pages.drop_first().len() implies is_inner_page(
            #[trigger] pages.drop_first()[i],
        ) by {
            assert(is_inner_page(pages[i + 1]));
        }
        law_listing_goes_on(listing.with(pages[0]->Ok_0.shards@), pages.drop_first());
    }
}

proof fn lemma_request_behind(
    listing: ShardListingView,
    request: ShardsRequestView,
    pages: Seq<Result<GetShardsOutput, Error>>,
)
    requires
        forall|i: int| 0 <= i < pages.len() ==> is_inner_page(#[trigger] pages[i]),
    ensures
        request_behind(listing, request, pages) == Some(
            if pages.len() == 0 {
                request
            } else {
                listing.request(text(pages.last()->Ok_0.last_shard_id))
            },
        ),
    decreases pages.len(),
{
    if pages.len() > 0 {
        let rest = pages.drop_first();
        assert(is_inner_page(pages[0]));
        assert forall|i: int| 0 <= i < rest.len() implies is_inner_page(#[trigger] rest[i]) by {
            assert(is_inner_page(pages[i + 1]));
        }
        lemma_request_behind(
            listing.with(pages[0]->Ok_0.shards@),
            listing.request(text(pages[0]->Ok_0.last_shard_id)),
            rest,
        );
        if rest.len() > 0 {
            assert(rest.last() == pages.last());
        }
    }
}

/// Every page is asked of the stream that the listing was started for: the first
/// one without a shard id, and each further one behind the id that the page before
/// it named.
pub proof fn law_pages_are_asked_of_the_stream(
    stream_arn: Seq<char>,
    pages: Seq<Result<GetShardsOutput, Error>>,
)
    requires
        forall|i: int| 0 <= i < pages.len() ==> is_inner_page(#[trigger] pages[i]),
    ensures
        ({
            let listing = ShardListingView::new(stream_arn);
            request_behind(listing, listing.request(None), pages) == Some(
                ShardsRequestView {
                    stream_arn,
                    exclusive_start_shard_id: if pages.len() == 0 {
                        None
                    } else {
                        text(pages.last()->Ok_0.last_shard_id)
                    },
                },
            )
        }),
{
    let listing = ShardListingView::new(stream_arn);
    lemma_request_behind(listing, listing.request(None), pages);
}

/// No page is asked for behind the last one, nor behind one that could not be had.
pub proof fn law_nothing_is_asked_behind_the_last_page(
    listing: ShardListingView,
    request: ShardsRequestView,
    pages: Seq<Result<GetShardsOutput, Error>>,
    i: int,
)
    requires
        0 <= i < pages.len(),
        !is_inner_page(pages[i]),
    ensures
        request_behind(listing, request, pages) is None,
    decreases pages.len(),
{
    if i > 0 && is_inner_page(pages[0]) {
        law_nothing_is_asked_behind_the_last_page(
            listing.with(pages[0]->Ok_0.shards@),
            listing.request(text(pages[0]->Ok_0.last_shard_id)),
            pages.drop_first(),
            i - 1,
        );
    }
}

} // verus!
