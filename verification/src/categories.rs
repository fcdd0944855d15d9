//! The category listing and the service that turns each page of it into
//! follow-up requests and file-write requests.

use crate::bus::{Received, ReceivedView};
use crate::events::{
    ActiveCount, EventType, EventView, FetcherRequest, FetcherRequestView, FetcherResponse,
    FetcherResponseView, FileRequest, FileRequestView, RequestUrl, RequestUrlView, StateUpdate,
};
use crate::utils::Utils;
use rayon::iter::{IntoParallelIterator, ParallelExtend, ParallelIterator};
use std::collections::HashMap;
use vstd::prelude::*;
use vstd::string::*;

verus! {

broadcast use vstd::std_specs::hash::group_hash_axioms;

/// One category of the help center, as a page of the listing carries it.
#[derive(Debug, PartialEq, Eq)]
pub struct Category {
    pub id: i64,
    pub name: String,
    pub url: String,
}

/// The mathematical value of a [`Category`].
pub struct CategoryView {
    pub id: i64,
    pub name: Seq<char>,
    pub url: Seq<char>,
}

impl View for Category {
    type V = CategoryView;

    open spec fn view(&self) -> CategoryView {
        CategoryView { id: self.id, name: self.name@, url: self.url@ }
    }
}

impl DeepView for Category {
    type V = CategoryView;

    #[verifier::inline]
    open spec fn deep_view(&self) -> CategoryView {
        self.view()
    }
}

impl Clone for Category {
    fn clone(&self) -> (r: Self)
        ensures
            r@ == self@,
    {
        Category { id: self.id, name: self.name.clone(), url: self.url.clone() }
    }
}

/// What the catalog keeps of a category, under the category's id.
#[derive(Debug, PartialEq, Eq)]
pub struct CategoryDetail {
    pub name: String,
    pub url: String,
}

/// The mathematical value of a [`CategoryDetail`].
pub struct CategoryDetailView {
    pub name: Seq<char>,
    pub url: Seq<char>,
}

impl View for CategoryDetail {
    type V = CategoryDetailView;

    open spec fn view(&self) -> CategoryDetailView {
        CategoryDetailView { name: self.name@, url: self.url@ }
    }
}

impl DeepView for CategoryDetail {
    type V = CategoryDetailView;

    #[verifier::inline]
    open spec fn deep_view(&self) -> CategoryDetailView {
        self.view()
    }
}

impl CategoryView {
    /// What the catalog keeps of this category.
    pub open spec fn detail(self) -> CategoryDetailView {
        CategoryDetailView { name: self.name, url: self.url }
    }
}

impl Category {
    /// Splits the category into its id and what the catalog keeps of it.
    pub fn into_entry(self) -> (entry: (i64, CategoryDetail))
        ensures
            entry.0 == self.id,
            entry.1@ == self@.detail(),
    {
        (self.id, CategoryDetail { name: self.name, url: self.url })
    }
}

/// One page of the category listing: its categories in order, and the cursor
/// of the page that follows, if there is one.
#[derive(Debug, PartialEq, Eq)]
pub struct CategoriesResponse {
    pub categories: Vec<Category>,
    pub next_page: Option<String>,
}

/// The mathematical value of a [`CategoriesResponse`].
pub struct CategoriesResponseView {
    pub categories: Seq<CategoryView>,
    pub next_page: Option<Seq<char>>,
}

impl View for CategoriesResponse {
    type V = CategoriesResponseView;

    open spec fn view(&self) -> CategoriesResponseView {
        CategoriesResponseView {
            categories: self.categories.deep_view(),
            next_page: self.next_page.deep_view(),
        }
    }
}

impl DeepView for CategoriesResponse {
    type V = CategoriesResponseView;

    #[verifier::inline]
    open spec fn deep_view(&self) -> CategoriesResponseView {
        self.view()
    }
}

impl Clone for CategoriesResponse {
    fn clone(&self) -> (r: Self)
        ensures
            r@ == self@,
    {
        let mut categories: Vec<Category> = Vec::new();
        let mut i: usize = 0;
        while i < self.categories.len()
            invariant
                i <= self.categories.len(),
                categories.len() == i,
                forall|k: int| 0 <= k < i ==> categories[k]@ == self.categories[k]@,
            decreases self.categories.len() - i,
        {
            categories.push(self.categories[i].clone());
            i += 1;
        }
        let next_page = match &self.next_page {
            Some(cursor) => Some(cursor.clone()),
            None => None,
        };
        let r = CategoriesResponse { categories, next_page };
        assert(r@.categories =~= self@.categories);
        r
    }
}


/// What the category service does in answer to one received item.
#[derive(Debug, PartialEq, Eq)]
pub struct CategoriesTurn {
    /// The events to publish, in order.
    pub publish: Vec<EventType>,
    /// The error of a failed fetch, where the received item reported one.
    pub failure: Option<String>,
    /// Whether the service goes on receiving.
    pub running: bool,
}

/// The mathematical value of a [`CategoriesTurn`].
pub struct CategoriesTurnView {
    pub publish: Seq<EventView>,
    pub failure: Option<Seq<char>>,
    pub running: bool,
}

impl View for CategoriesTurn {
    type V = CategoriesTurnView;

    open spec fn view(&self) -> CategoriesTurnView {
        CategoriesTurnView {
            publish: self.publish.deep_view(),
            failure: self.failure.deep_view(),
            running: self.running,
        }
    }
}

/// The category service: the catalog of every category seen so far, and
/// every page location it has asked for.
pub struct Categories {
    categories_hash: HashMap<i64, CategoryDetail>,
    requested: Vec<String>,
}

/// The mathematical value of a [`Categories`].
pub struct CategoriesView {
    /// The categories seen so far, by id.
    pub catalog: Map<i64, CategoryDetailView>,
    /// The page locations asked for so far, oldest first.
    pub requested: Seq<Seq<char>>,
}

impl View for Categories {
    type V = CategoriesView;

    closed spec fn view(&self) -> CategoriesView {
        CategoriesView {
            catalog: Categories::catalog_of(self.categories_hash),
            requested: self.requested.deep_view(),
        }
    }
}

/// Calls rayon's `ParallelExtend::par_extend` on the map, with the categories
/// as a parallel iterator mapped through [`Category::into_entry`]. Rayon
/// collects the mapped items in their order and hands them to
/// `HashMap::extend`, so the map ends as if each entry had been inserted in
/// turn: a later category replaces an earlier one with the same id.
#[verifier::external_body]
fn extend_catalog(catalog: &mut HashMap<i64, CategoryDetail>, categories: Vec<Category>)
    ensures
        Categories::catalog_of(*final(catalog)) == Categories::catalog_after(
            Categories::catalog_of(*old(catalog)),
            categories.deep_view(),
        ),
{
    catalog.par_extend(categories.into_par_iter().map(Category::into_entry));
}

impl Categories {
    /// The location of the first page of the listing.
    pub open spec fn seed_url() -> Seq<char> {
        "categories.json"@
    }

    /// The request that starts the pipeline.
    pub open spec fn seed_event() -> EventView {
        Self::fetch_request(Self::seed_url())
    }

    /// The request for the page at `url`.
    pub open spec fn fetch_request(url: Seq<char>) -> EventView {
        EventView::FetcherRequest(FetcherRequestView::Categories(RequestUrlView { url }))
    }

    /// The path, relative to the output directory, of the index file of the
    /// category called `name`.
    pub open spec fn index_path(name: Seq<char>) -> Seq<char> {
        Utils::sanitized(name) + "/_index.md"@
    }

    /// The request to write the index file of `category`.
    pub open spec fn file_request(category: CategoryView) -> EventView {
        EventView::FileRequest(
            FileRequestView::Markdown {
                path: Self::index_path(category.name),
                data: Utils::front_matter(category.name),
            },
        )
    }

    /// One file request per category, in the order of the page.
    pub open spec fn file_requests(categories: Seq<CategoryView>) -> Seq<EventView> {
        categories.map_values(|category: CategoryView| Self::file_request(category))
    }

    /// Whether the cursor of a page is followed: it is present and names a
    /// location that was not asked for before.
    pub open spec fn follows(requested: Seq<Seq<char>>, next_page: Option<Seq<char>>) -> bool {
        next_page matches Some(cursor) && !requested.contains(cursor)
    }

    /// The continuation that a page gives rise to: one request for its
    /// cursor where the cursor is followed, nothing otherwise.
    pub open spec fn continuation(requested: Seq<Seq<char>>, next_page: Option<Seq<char>>) -> Seq<
        EventView,
    > {
        if Self::follows(requested, next_page) {
            seq![Self::fetch_request(next_page->0)]
        } else {
            Seq::empty()
        }
    }

    /// Everything published for one page: the increment that opens the unit
    /// of work, the continuation, the file requests, and the decrement that
    /// closes the unit.
    pub open spec fn page_events(requested: Seq<Seq<char>>, page: CategoriesResponseView) -> Seq<
        EventView,
    > {
        seq![EventView::UpdateState(StateUpdate::Categories(ActiveCount::Increment))]
            + Self::continuation(requested, page.next_page) + Self::file_requests(page.categories)
            + seq![EventView::UpdateState(StateUpdate::Categories(ActiveCount::Decrement))]
    }

    /// The catalog once `categories` have been entered in order; a later
    /// category replaces an earlier one with the same id.
    pub open spec fn catalog_after(
        catalog: Map<i64, CategoryDetailView>,
        categories: Seq<CategoryView>,
    ) -> Map<i64, CategoryDetailView>
        decreases categories.len(),
    {
        if categories.len() == 0 {
            catalog
        } else {
            Self::catalog_after(catalog, categories.drop_last()).insert(
                categories.last().id,
                categories.last().detail(),
            )
        }
    }

    /// The mathematical value of a stored catalog.
    pub open spec fn catalog_of(stored: HashMap<i64, CategoryDetail>) -> Map<
        i64,
        CategoryDetailView,
    > {
        stored@.map_values(|detail: CategoryDetail| detail@)
    }

    /// The service after `received`: a page enters its categories into the
    /// catalog and records the cursor it follows; nothing else changes the
    /// service.
    pub open spec fn state_after(state: CategoriesView, received: ReceivedView) -> CategoriesView {
        match received {
            ReceivedView::Event(EventView::FetcherResponse(FetcherResponseView::Categories(page))) => {
                CategoriesView {
                    catalog: Self::catalog_after(state.catalog, page.categories),
                    requested: if Self::follows(state.requested, page.next_page) {
                        state.requested.push(page.next_page->0)
                    } else {
                        state.requested
                    },
                }
            },
            _ => state,
        }
    }

    /// The service's answer to `received`: a page is worked off, a failed
    /// fetch is reported and not retried, a shutdown or a closed bus ends the
    /// service, and anything else, a lag fault included, is passed over.
    pub open spec fn turn_for(state: CategoriesView, received: ReceivedView) -> CategoriesTurnView {
        match received {
            ReceivedView::Event(EventView::FetcherResponse(FetcherResponseView::Categories(page))) => {
                CategoriesTurnView {
                    publish: Self::page_events(state.requested, page),
                    failure: None,
                    running: true,
                }
            },
            ReceivedView::Event(
                EventView::FetcherResponse(FetcherResponseView::FetchFailed { error }),
            ) => CategoriesTurnView { publish: Seq::empty(), failure: Some(error), running: true },
            ReceivedView::Event(EventView::Shutdown) | ReceivedView::Closed => CategoriesTurnView {
                publish: Seq::empty(),
                failure: None,
                running: false,
            },
            _ => CategoriesTurnView { publish: Seq::empty(), failure: None, running: true },
        }
    }

    /// A service that has seen no category and has asked for the first page
    /// only.
    pub fn new() -> (service: Self)
        ensures
            service@.catalog == Map::<i64, CategoryDetailView>::empty(),
            service@.requested == seq![Self::seed_url()],
    {
        let mut requested: Vec<String> = Vec::new();
        requested.push(String::from_str("categories.json"));
        let categories_hash: HashMap<i64, CategoryDetail> = HashMap::new();
        Categories { categories_hash, requested }
    }

    /// The request for the first page, to be published once at startup.
    pub fn seed(&self) -> (event: EventType)
        ensures
            event@ == Self::seed_event(),
    {
        EventType::FetcherRequest(
            FetcherRequest::Categories(RequestUrl { url: String::from_str("categories.json") }),
        )
    }

    /// The catalog of the categories seen so far.
    pub fn categories_hash(&self) -> (stored: &HashMap<i64, CategoryDetail>)
        ensures
            Self::catalog_of(*stored) == self@.catalog,
    {
        &self.categories_hash
    }

    /// Whether the page at `cursor` was asked for before.
    fn was_requested(&self, cursor: &String) -> (found: bool)
        ensures
            found == self@.requested.contains(cursor@),
    {
        let mut i: usize = 0;
        while i < self.requested.len()
            invariant
                i <= self.requested.len(),
                forall|k: int| 0 <= k < i ==> self.requested[k]@ != cursor@,
            decreases self.requested.len() - i,
        {
            if self.requested[i] == *cursor {
                assert(self.requested.deep_view()[i as int] == cursor@);
                return true;
            }
            i += 1;
        }
        false
    }

    /// The file request for one category.
    fn file_request_for(category: &Category) -> (event: EventType)
        ensures
            event@ == Self::file_request(category@),
    {
        let mut path = Utils::sanitize_name(category.name.as_str());
        path.append("/_index.md");
        let data = Utils::create_front_matter(category.name.as_str());
        EventType::FileRequest(FileRequest::Markdown { path, data })
    }

    /// Answers one received item.
    pub fn run(&mut self, received: Received) -> (turn: CategoriesTurn)
        ensures
            final(self)@ == Self::state_after(old(self)@, received@),
            turn@ == Self::turn_for(old(self)@, received@),
    {
        match received {
            Received::Event(EventType::FetcherResponse(FetcherResponse::Categories(page))) => {
                let ghost before = self@;
                let CategoriesResponse { categories, next_page } = page;
                let mut publish: Vec<EventType> = Vec::new();
                publish.push(EventType::UpdateState(StateUpdate::Categories(ActiveCount::Increment)));
                match next_page {
                    Some(cursor) => {
                        if !self.was_requested(&cursor) {
                            self.requested.push(cursor.clone());
                            publish.push(
                                EventType::FetcherRequest(
                                    FetcherRequest::Categories(RequestUrl { url: cursor }),
                                ),
                            );
                        }
                    },
                    None => {},
                }
                let ghost head = seq![
                    EventView::UpdateState(StateUpdate::Categories(ActiveCount::Increment)),
                ] + Self::continuation(before.requested, next_page.deep_view());
                assert(self.requested.deep_view() =~= Self::state_after(before, received@).requested);
                let mut i: usize = 0;
                while i < categories.len()
                    invariant
                        i <= categories.len(),
                        publish.deep_view() == head + Self::file_requests(
                            categories.deep_view().take(i as int),
                        ),
                    decreases categories.len() - i,
                {
                    let event = Self::file_request_for(&categories[i]);
                    let ghost sofar = publish.deep_view();
                    publish.push(event);
                    assert(publish.deep_view() =~= sofar.push(event@));
                    i += 1;
                }
                let ghost body = publish.deep_view();
                extend_catalog(&mut self.categories_hash, categories);
                publish.push(EventType::UpdateState(StateUpdate::Categories(ActiveCount::Decrement)));
                assert(publish.deep_view() =~= body.push(
                    EventView::UpdateState(StateUpdate::Categories(ActiveCount::Decrement)),
                ));
                assert(publish.deep_view() =~= Self::page_events(before.requested, page@));
                CategoriesTurn { publish, failure: None, running: true }
            },
            Received::Event(EventType::FetcherResponse(FetcherResponse::FetchFailed { error })) => {
                let publish: Vec<EventType> = Vec::new();
                assert(publish.deep_view() =~= Seq::<EventView>::empty());
                CategoriesTurn { publish, failure: Some(error), running: true }
            },
            Received::Event(EventType::Shutdown) | Received::Closed => {
                let publish: Vec<EventType> = Vec::new();
                assert(publish.deep_view() =~= Seq::<EventView>::empty());
                CategoriesTurn { publish, failure: None, running: false }
            },
            _ => {
                let publish: Vec<EventType> = Vec::new();
                assert(publish.deep_view() =~= Seq::<EventView>::empty());
                CategoriesTurn { publish, failure: None, running: true }
            },
        }
    }
}


/// The number of elements of `a + b` that satisfy `pred` is the sum of the
/// numbers for `a` and for `b`.
proof fn lemma_count_add<A>(a: Seq<A>, b: Seq<A>, pred: spec_fn(A) -> bool)
    ensures
        (a + b).filter(pred).len() == a.filter(pred).len() + b.filter(pred).len(),
{
    Seq::filter_distributes_over_add(a, b, pred);
}

/// The number of elements that satisfy `pred`, where all or none of them do.
proof fn lemma_count_uniform<A>(s: Seq<A>, pred: spec_fn(A) -> bool)
    ensures
        (forall|i: int| 0 <= i < s.len() ==> pred(s[i])) ==> s.filter(pred).len() == s.len(),
        (forall|i: int| 0 <= i < s.len() ==> !pred(s[i])) ==> s.filter(pred).len() == 0,
    decreases s.len(),
{
    reveal(Seq::filter);
    if s.len() > 0 {
        lemma_count_uniform(s.drop_last(), pred);
    }
}

impl Categories {
    /// How many of `events` ask for a page.
    pub open spec fn fetch_requests_in(events: Seq<EventView>) -> nat {
        events.filter(|event: EventView| event is FetcherRequest).len()
    }

    /// How many of `events` ask for a file to be written.
    pub open spec fn file_requests_in(events: Seq<EventView>) -> nat {
        events.filter(|event: EventView| event is FileRequest).len()
    }

    /// The item by which a page reaches the service.
    pub open spec fn page_received(page: CategoriesResponseView) -> ReceivedView {
        ReceivedView::Event(EventView::FetcherResponse(FetcherResponseView::Categories(page)))
    }

    /// The service after the pages of `pages` have reached it in order.
    pub open spec fn after_pages(
        state: CategoriesView,
        pages: Seq<CategoriesResponseView>,
    ) -> CategoriesView
        decreases pages.len(),
    {
        if pages.len() == 0 {
            state
        } else {
            Self::state_after(
                Self::after_pages(state, pages.drop_last()),
                Self::page_received(pages.last()),
            )
        }
    }

    /// Everything the service publishes while the pages of `pages` reach it
    /// in order.
    pub open spec fn pages_events(state: CategoriesView, pages: Seq<CategoriesResponseView>) -> Seq<
        EventView,
    >
        decreases pages.len(),
    {
        if pages.len() == 0 {
            Seq::empty()
        } else {
            Self::pages_events(state, pages.drop_last()) + Self::turn_for(
                Self::after_pages(state, pages.drop_last()),
                Self::page_received(pages.last()),
            ).publish
        }
    }

    /// The total number of categories on `pages`.
    pub open spec fn categories_on(pages: Seq<CategoriesResponseView>) -> nat
        decreases pages.len(),
    {
        if pages.len() == 0 {
            0
        } else {
            Self::categories_on(pages.drop_last()) + pages.last().categories.len()
        }
    }

    /// A chain of pages: every page but the last names the next one, the
    /// last names none, and no page names the first page or a page that an
    /// earlier one named.
    pub open spec fn is_chain(pages: Seq<CategoriesResponseView>) -> bool {
        &&& pages.len() >= 1
        &&& pages.last().next_page is None
        &&& forall|i: int| 0 <= i < pages.len() - 1 ==> (#[trigger] pages[i]).next_page is Some
        &&& forall|i: int|
            0 <= i < pages.len() - 1 ==> (#[trigger] pages[i]).next_page->0 != Self::seed_url()
        &&& forall|i: int, j: int|
            0 <= i < j < pages.len() - 1 ==> (#[trigger] pages[i]).next_page->0 != (
            #[trigger] pages[j]).next_page->0
    }

    /// For one page the service publishes exactly one file request per
    /// category, at most one fetch request, and that one exactly when it
    /// follows the cursor of the page.
    pub proof fn lemma_page_requests(requested: Seq<Seq<char>>, page: CategoriesResponseView)
        ensures
            Self::file_requests_in(Self::page_events(requested, page)) == page.categories.len(),
            Self::fetch_requests_in(Self::page_events(requested, page)) == if Self::follows(
                requested,
                page.next_page,
            ) {
                1nat
            } else {
                0nat
            },
    {
        let opening = seq![EventView::UpdateState(StateUpdate::Categories(ActiveCount::Increment))];
        let onward = Self::continuation(requested, page.next_page);
        let files = Self::file_requests(page.categories);
        let closing = seq![EventView::UpdateState(StateUpdate::Categories(ActiveCount::Decrement))];
        let is_fetch = |event: EventView| event is FetcherRequest;
        let is_file = |event: EventView| event is FileRequest;
        lemma_count_add(opening + onward + files, closing, is_fetch);
        lemma_count_add(opening + onward, files, is_fetch);
        lemma_count_add(opening, onward, is_fetch);
        lemma_count_add(opening + onward + files, closing, is_file);
        lemma_count_add(opening + onward, files, is_file);
        lemma_count_add(opening, onward, is_file);
        lemma_count_uniform(opening, is_fetch);
        lemma_count_uniform(opening, is_file);
        lemma_count_uniform(closing, is_fetch);
        lemma_count_uniform(closing, is_file);
        lemma_count_uniform(onward, is_fetch);
        lemma_count_uniform(onward, is_file);
        lemma_count_uniform(files, is_fetch);
        lemma_count_uniform(files, is_file);
    }

    /// Every unit of work is closed: what is published for a page opens with
    /// the service's increment, ends with its decrement, and holds no other
    /// activity delta in between.
    pub proof fn lemma_unit_is_bracketed(requested: Seq<Seq<char>>, page: CategoriesResponseView)
        ensures
            Self::page_events(requested, page).len() >= 2,
            Self::page_events(requested, page).first() == EventView::UpdateState(
                StateUpdate::Categories(ActiveCount::Increment),
            ),
            Self::page_events(requested, page).last() == EventView::UpdateState(
                StateUpdate::Categories(ActiveCount::Decrement),
            ),
            forall|i: int|
                0 < i < Self::page_events(requested, page).len() - 1 ==> !(
                #[trigger] Self::page_events(requested, page)[i] is UpdateState),
    {
    }

    /// Over the first `count` pages of a chain the service follows every
    /// cursor: it has then asked for the first page and for each page named
    /// so far, and has published one fetch request per cursor and one file
    /// request per category.
    proof fn lemma_chain_prefix(state: CategoriesView, pages: Seq<CategoriesResponseView>, count: int)
        requires
            state.requested == seq![Self::seed_url()],
            Self::is_chain(pages),
            0 <= count <= pages.len(),
        ensures
            Self::after_pages(state, pages.take(count)).requested.len() == 1 + if count
                == pages.len() {
                count - 1
            } else {
                count
            },
            forall|k: int|
                #![trigger Self::after_pages(state, pages.take(count)).requested[k]]
                1 <= k < Self::after_pages(state, pages.take(count)).requested.len()
                    ==> Self::after_pages(state, pages.take(count)).requested[k] == pages[k
                    - 1].next_page->0,
            Self::after_pages(state, pages.take(count)).requested[0] == Self::seed_url(),
            Self::fetch_requests_in(Self::pages_events(state, pages.take(count))) + 1
                == Self::after_pages(state, pages.take(count)).requested.len(),
            Self::file_requests_in(Self::pages_events(state, pages.take(count)))
                == Self::categories_on(pages.take(count)),
        decreases count,
    {
        let prefix = pages.take(count);
        if count == 0 {
            lemma_count_uniform(
                Seq::<EventView>::empty(),
                |event: EventView| event is FetcherRequest,
            );
            lemma_count_uniform(Seq::<EventView>::empty(), |event: EventView| event is FileRequest);
        } else {
            let earlier = pages.take(count - 1);
            let page = pages[count - 1];
            assert(prefix.drop_last() == earlier);
            Self::lemma_chain_prefix(state, pages, count - 1);
            let before = Self::after_pages(state, earlier);
            let published = Self::page_events(before.requested, page);
            Self::lemma_page_requests(before.requested, page);
            lemma_count_add(
                Self::pages_events(state, earlier),
                published,
                |event: EventView| event is FetcherRequest,
            );
            lemma_count_add(
                Self::pages_events(state, earlier),
                published,
                |event: EventView| event is FileRequest,
            );
            if count < pages.len() {
                // The cursor of this page is new: what was asked for so far is the
                // first page and the cursors of the pages before this one.
                assert forall|k: int| 0 <= k < before.requested.len() implies before.requested[k]
                    != page.next_page->0 by {}
            }
        }
    }

    /// Pagination: over a chain of pages the service asks for exactly as many
    /// pages as the chain has, the first page included, and for exactly one
    /// file per category.
    pub proof fn lemma_pagination(state: CategoriesView, pages: Seq<CategoriesResponseView>)
        requires
            state.requested == seq![Self::seed_url()],
            Self::is_chain(pages),
        ensures
            Self::fetch_requests_in(seq![Self::seed_event()] + Self::pages_events(state, pages))
                == pages.len(),
            Self::file_requests_in(seq![Self::seed_event()] + Self::pages_events(state, pages))
                == Self::categories_on(pages),
    {
        Self::lemma_chain_prefix(state, pages, pages.len() as int);
        assert(pages.take(pages.len() as int) == pages);
        let seed = seq![Self::seed_event()];
        lemma_count_add(
            seed,
            Self::pages_events(state, pages),
            |event: EventView| event is FetcherRequest,
        );
        lemma_count_add(seed, Self::pages_events(state, pages), |event: EventView| event is FileRequest);
        lemma_count_uniform(seed, |event: EventView| event is FetcherRequest);
        lemma_count_uniform(seed, |event: EventView| event is FileRequest);
    }
}

} // verus!
