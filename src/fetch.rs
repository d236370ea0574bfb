//! Cursor pagination over the remote paged query.
//!
//! The requests are made outside the library; each answer is handed to
//! `PagedFetch::on_page`, which accumulates the records and decides whether,
//! and with which cursor, to ask again.
use crate::models::Stop;
use crate::query::{take_of, Cursor, QueryArgs};
use vstd::prelude::*;

verus! {

/// The state of a fetch: the page size, the query's paging fields, what was
/// gathered so far and whether the fetch is over.
pub ghost struct FetchView {
    pub organization_id: Option<String>,
    pub order_by: Seq<(String, String)>,
    pub take: nat,
    pub skip: Option<u64>,
    pub cursor: Option<Seq<char>>,
    pub items: Seq<Stop>,
    pub finished: bool,
}

/// The fetch state after one answer: `None` when the service had no data.
pub open spec fn next_fetch(s: FetchView, page: Option<Seq<Stop>>) -> FetchView {
    match page {
        None => FetchView { finished: true, ..s },
        Some(p) => if p.len() < s.take {
            FetchView { items: s.items + p, finished: true, ..s }
        } else {
            FetchView {
                items: s.items + p,
                skip: Some(1u64),
                cursor: if p.len() > 0 {
                    Some(p.last().id@)
                } else {
                    s.cursor
                },
                finished: false,
                ..s
            }
        },
    }
}

/// The fetch state after a run of answers; answers after the end are not
/// asked for, and so change nothing.
pub open spec fn run_pages(s: FetchView, pages: Seq<Option<Seq<Stop>>>) -> FetchView
    decreases pages.len(),
{
    if pages.len() == 0 || s.finished {
        s
    } else {
        run_pages(next_fetch(s, pages[0]), pages.drop_first())
    }
}

/// A fetch that accumulates every page of a query.
pub struct PagedFetch {
    args: QueryArgs,
    items: Vec<Stop>,
    finished: bool,
}

impl View for PagedFetch {
    type V = FetchView;

    closed spec fn view(&self) -> FetchView {
        FetchView {
            organization_id: self.args.organization_id,
            order_by: self.args.order_by@,
            take: take_of(self.args),
            skip: self.args.skip,
            cursor: match self.args.cursor {
                Some(c) => Some(c.id@),
                None => None,
            },
            items: self.items@,
            finished: self.finished,
        }
    }
}

impl PagedFetch {
    /// Starts a fetch of the query `args`, with nothing gathered yet.
    pub fn new(args: QueryArgs) -> (r: PagedFetch)
        ensures
            r@.organization_id == args.organization_id,
            r@.order_by == args.order_by@,
            r@.take == take_of(args),
            r@.skip == args.skip,
            r@.cursor == (match args.cursor {
                Some(c) => Some(c.id@),
                None => None::<Seq<char>>,
            }),
            r@.items.len() == 0,
            !r@.finished,
    {
        PagedFetch { args, items: Vec::new(), finished: false }
    }

    /// The query to send for the next page.
    pub fn query(&self) -> (r: &QueryArgs)
        ensures
            r.organization_id == self@.organization_id,
            r.order_by@ == self@.order_by,
            take_of(*r) == self@.take,
            r.skip == self@.skip,
            (match r.cursor {
                Some(c) => Some(c.id@),
                None => None::<Seq<char>>,
            }) == self@.cursor,
    {
        &self.args
    }

    pub fn is_finished(&self) -> (r: bool)
        ensures
            r == self@.finished,
    {
        self.finished
    }

    /// The records gathered so far, in the order the pages came.
    pub fn items(&self) -> (r: &Vec<Stop>)
        ensures
            r@ == self@.items,
    {
        &self.items
    }

    /// The records gathered, once the fetch is over.
    pub fn into_items(self) -> (r: Vec<Stop>)
        ensures
            r@ == self@.items,
    {
        self.items
    }

    /// Takes one answer: `Some(page)`, or `None` when the service reported
    /// no data. The page's records are appended. The fetch ends on no data or
    /// on a page shorter than the page size; otherwise the cursor moves to the
    /// page's last record and the next query skips it. Returns whether
    /// another page is to be asked for.
    pub fn on_page(&mut self, page: Option<Vec<Stop>>) -> (more: bool)
        requires
            !old(self)@.finished,
        ensures
            final(self)@ == next_fetch(
                old(self)@,
                match page {
                    Some(p) => Some(p@),
                    None => None,
                },
            ),
            more == !final(self)@.finished,
    {
        match page {
            None => {
                self.finished = true;
                false
            },
            Some(p) => {
                let ghost pv = p@;
                let count = p.len();
                let take: u64 = match self.args.take {
                    Some(t) => t,
                    None => crate::query::DEFAULT_TAKE,
                };
                let last_id: Option<String> = if count > 0 {
                    Some(p[count - 1].id.clone())
                } else {
                    None
                };
                let mut p = p;
                self.items.append(&mut p);
                if (count as u64) < take {
                    self.finished = true;
                    false
                } else {
                    self.args.skip = Some(1);
                    match last_id {
                        Some(id) => {
                            self.args.cursor = Some(Cursor { id });
                        },
                        None => {},
                    }
                    assert(self@.items =~= old(self)@.items + pv);
                    true
                }
            },
        }
    }
}

/// The answers that hand over each of `pages` in turn.
pub open spec fn answers(pages: Seq<Seq<Stop>>) -> Seq<Option<Seq<Stop>>> {
    pages.map_values(|p: Seq<Stop>| Some(p))
}

/// When every page but the last is full, fetching them gathers exactly their
/// concatenation, in order; the fetch is over after the last page precisely
/// when that page is short, and it is not over before the last page.
pub proof fn lemma_fetch_concatenates(s: FetchView, pages: Seq<Seq<Stop>>)
    requires
        !s.finished,
        pages.len() > 0,
        forall|i: int| 0 <= i < pages.len() - 1 ==> (#[trigger] pages[i]).len() >= s.take,
    ensures
        run_pages(s, answers(pages)).items == s.items + pages.flatten(),
        run_pages(s, answers(pages)).finished == (pages.last().len() < s.take),
        forall|i: int|
            0 < i < pages.len() ==> !(#[trigger] run_pages(s, answers(pages.take(i)))).finished,
    decreases pages.len(),
{
    let a = answers(pages);
    let t = next_fetch(s, Some(pages[0]));
    assert(a[0] == Some(pages[0]));
    assert(run_pages(s, a) == run_pages(t, a.drop_first()));
    if pages.len() == 1 {
        assert(a.drop_first().len() == 0);
        assert(pages.drop_first().flatten() =~= Seq::<Stop>::empty());
        assert(pages.flatten() == pages[0] + pages.drop_first().flatten());
        assert(pages.flatten() =~= pages[0]);
        assert(t.items =~= s.items + pages.flatten());
    } else {
        let rest = pages.drop_first();
        assert(pages[0].len() >= s.take);
        assert forall|i: int| 0 <= i < rest.len() - 1 implies (#[trigger] rest[i]).len() >= t.take by {
            assert(rest[i] == pages[i + 1]);
        }
        lemma_fetch_concatenates(t, rest);
        assert(a.drop_first() =~= answers(rest));
        assert(pages.flatten() == pages[0] + rest.flatten());
        assert(t.items + rest.flatten() =~= s.items + pages.flatten());
        assert forall|i: int| 0 < i < pages.len() implies !(#[trigger] run_pages(
            s,
            answers(pages.take(i)),
        )).finished by {
            let ai = answers(pages.take(i));
            assert(ai[0] == Some(pages[0]));
            assert(run_pages(s, ai) == run_pages(t, ai.drop_first()));
            if i == 1 {
                assert(ai.drop_first().len() == 0);
            } else {
                assert(ai.drop_first() =~= answers(rest.take(i - 1)));
                assert(!run_pages(t, answers(rest.take(i - 1))).finished);
            }
        }
    }
}

/// An answer without data ends the fetch at once and adds nothing.
pub proof fn lemma_no_data_stops(s: FetchView)
    ensures
        next_fetch(s, None).finished,
        next_fetch(s, None).items == s.items,
{
}

/// A page shorter than the page size ends the fetch: no further page is asked for.
pub proof fn lemma_short_page_stops(s: FetchView, page: Seq<Stop>)
    requires
        page.len() < s.take,
    ensures
        next_fetch(s, Some(page)).finished,
        next_fetch(s, Some(page)).items == s.items + page,
{
}

} // verus!
