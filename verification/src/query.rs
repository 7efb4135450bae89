//! Listing report views: filtered, ordered, paginated, and scoped to what
//! the viewer may see.

use vstd::prelude::*;
use crate::error::ReportError;
use crate::ids::{CommunityId, PersonId, PostId};
use crate::model::StoreState;
use crate::pagination::{
    lemma_window_nonnegative,
    limit_and_offset,
    page_limit,
    page_offset,
    pagination_valid,
};
use crate::rows::{LocalUserView, PostReport};
use crate::store::ReportStore;
use crate::view::PostReportView;

verus! {

/// What to list: reports on one community or one post only, which page of
/// what size, and whether resolved reports are left out.
///
/// The order follows from `unresolved_only`: a queue of unresolved reports is
/// worked through oldest first, a history of all reports is read newest
/// first.
#[derive(Clone, Copy, Debug, PartialEq, Eq)]
pub struct PostReportQuery {
    pub community_id: Option<CommunityId>,
    pub post_id: Option<PostId>,
    pub page: Option<i64>,
    pub limit: Option<i64>,
    pub unresolved_only: bool,
}

impl Default for PostReportQuery {
    /// The query for the first page, of the default size, of all reports.
    fn default() -> (query: PostReportQuery)
        ensures
            query == (PostReportQuery {
                community_id: None,
                post_id: None,
                page: None,
                limit: None,
                unresolved_only: false,
            }),
    {
        PostReportQuery {
            community_id: None,
            post_id: None,
            page: None,
            limit: None,
            unresolved_only: false,
        }
    }
}

/// The part of `s` that a page of at most `limit` items shows after `offset`
/// items have been passed over.
pub open spec fn page_of<A>(s: Seq<A>, limit: int, offset: int) -> Seq<A> {
    if offset >= s.len() {
        Seq::empty()
    } else if offset + limit >= s.len() {
        s.subrange(offset, s.len() as int)
    } else {
        s.subrange(offset, offset + limit)
    }
}

/// One more item at the end of `s` shows on the page exactly when the page
/// has begun and is not yet full.
pub proof fn lemma_page_of_push<A>(s: Seq<A>, x: A, limit: int, offset: int)
    requires
        0 <= limit,
        0 <= offset,
    ensures
        page_of(s.push(x), limit, offset) == if offset <= s.len() < offset + limit {
            page_of(s, limit, offset).push(x)
        } else {
            page_of(s, limit, offset)
        },
{
    assert(page_of(s.push(x), limit, offset) =~= if offset <= s.len() < offset + limit {
        page_of(s, limit, offset).push(x)
    } else {
        page_of(s, limit, offset)
    });
}

impl StoreState {
    /// Whether `report` is among those that `query` asks for and `viewer` may
    /// see: a view of it can be assembled, it passes the filters of the
    /// query, and, unless the viewer is an admin, the viewer moderates the
    /// community of its post.
    pub open spec fn listed(
        self,
        report: PostReport,
        query: PostReportQuery,
        viewer: PersonId,
        admin: bool,
    ) -> bool {
        &&& self.viewable(report)
        &&& query.community_id matches Some(c) ==> self.posts[report.post_id].community_id == c
        &&& query.post_id matches Some(p) ==> self.posts[report.post_id].id == p
        &&& query.unresolved_only ==> !report.resolved
        &&& !admin ==> self.is_moderator(viewer, self.posts[report.post_id].community_id)
    }

    /// The reports in the order in which `query` lists them: oldest first
    /// where only unresolved reports are asked for, else newest first.
    pub open spec fn in_order(self, query: PostReportQuery) -> Seq<PostReport> {
        if query.unresolved_only {
            self.reports
        } else {
            self.reports.reverse()
        }
    }

    /// All reports that `query` asks for and `viewer` may see, in the order
    /// of the listing, before pagination.
    pub open spec fn listed_reports(self, query: PostReportQuery, viewer: PersonId, admin: bool) -> Seq<
        PostReport,
    > {
        self.in_order(query).filter(|r: PostReport| self.listed(r, query, viewer, admin))
    }

    /// The page of report views that `query` asks for.
    pub open spec fn listing(self, query: PostReportQuery, viewer: PersonId, admin: bool) -> Seq<
        PostReportView,
    > {
        page_of(
            self.listed_reports(query, viewer, admin),
            page_limit(query.limit),
            page_offset(query.page, query.limit),
        ).map_values(|r: PostReport| self.view_of(r, viewer))
    }
}

/// Whether `report` is among those that `query` asks for and `viewer` may
/// see.
fn is_listed(
    store: &ReportStore,
    report: &PostReport,
    query: &PostReportQuery,
    viewer: PersonId,
    admin: bool,
) -> (listed: bool)
    requires
        store@.wf(),
    ensures
        listed == store@.listed(*report, *query, viewer, admin),
{
    if query.unresolved_only && report.resolved {
        return false;
    }
    let post = match store.post(report.post_id) {
        Some(p) => p,
        None => {
            return false;
        },
    };
    if store.post_aggregates(report.post_id).is_none() || store.community(
        post.community_id,
    ).is_none() || store.person(report.creator_id).is_none() || store.person(
        post.creator_id,
    ).is_none() {
        return false;
    }
    match query.community_id {
        Some(c) => {
            if post.community_id != c {
                return false;
            }
        },
        None => {},
    }
    match query.post_id {
        Some(p) => {
            if post.id != p {
                return false;
            }
        },
        None => {},
    }
    admin || match store.community_actions(viewer, post.community_id) {
        Some(a) => a.became_moderator.is_some(),
        None => false,
    }
}

impl PostReportQuery {
    /// Lists the report views that this query asks for, as `user` may see
    /// them: an admin sees every report, anyone else the reports on posts in
    /// the communities that they moderate.
    ///
    /// Fails with `InvalidPagination` exactly when the page and the page size
    /// cannot be served.
    pub fn list(self, store: &ReportStore, user: &LocalUserView) -> (result: Result<
        Vec<PostReportView>,
        ReportError,
    >)
        requires
            store@.wf(),
        ensures
            match result {
                Ok(views) => pagination_valid(self.page, self.limit) && views@ == store@.listing(
                    self,
                    user.person.id,
                    user.local_user.admin,
                ),
                Err(e) => !pagination_valid(self.page, self.limit) && e
                    == ReportError::InvalidPagination,
            },
    {
        let (limit, offset) = match limit_and_offset(self.page, self.limit) {
            Ok(pair) => pair,
            Err(e) => {
                return Err(e);
            },
        };
        let viewer = user.person.id;
        let admin = user.local_user.admin;
        let reports = store.reports();
        let n = reports.len();
        let ghost ordered = store@.in_order(self);
        let ghost keep = |r: PostReport| store@.listed(r, self, viewer, admin);
        let ghost show = |r: PostReport| store@.view_of(r, viewer);
        let mut views: Vec<PostReportView> = Vec::new();
        let mut passed: usize = 0;
        let mut k: usize = 0;
        proof {
            lemma_window_nonnegative(self.page, self.limit);
            assert(ordered.take(0) =~= Seq::<PostReport>::empty());
            assert(page_of(Seq::<PostReport>::empty(), limit as int, offset as int).map_values(show)
                =~= Seq::<PostReportView>::empty());
        }
        while k < n
            invariant
                k <= n,
                n == reports@.len(),
                n <= i32::MAX,
                store@.wf(),
                reports@ == store@.reports,
                ordered == store@.in_order(self),
                ordered.len() == n,
                viewer == user.person.id,
                admin == user.local_user.admin,
                0 <= limit,
                0 <= offset,
                keep == (|r: PostReport| store@.listed(r, self, viewer, admin)),
                show == (|r: PostReport| store@.view_of(r, viewer)),
                passed == ordered.take(k as int).filter(keep).len(),
                passed <= k,
                views@ == page_of(
                    ordered.take(k as int).filter(keep),
                    limit as int,
                    offset as int,
                ).map_values(show),
            decreases n - k,
        {
            let at = if self.unresolved_only {
                k
            } else {
                n - 1 - k
            };
            let report = &reports[at];
            proof {
                assert(ordered[k as int] == reports@[at as int]);
                let before = ordered.take(k as int);
                assert(ordered.take(k + 1) =~= before.push(*report));
                before.lemma_filter_push(*report, keep);
                lemma_page_of_push(before.filter(keep), *report, limit as int, offset as int);
            }
            if is_listed(store, report, &self, viewer, admin) {
                if passed as i64 >= offset && passed as i64 - offset < limit {
                    let view = PostReportView::assemble(store, report, viewer).unwrap();
                    let ghost shown = page_of(
                        ordered.take(k as int).filter(keep),
                        limit as int,
                        offset as int,
                    );
                    views.push(view);
                    assert(shown.push(*report).map_values(show) =~= shown.map_values(show).push(
                        show(*report),
                    ));
                }
                passed += 1;
            }
            k += 1;
        }
        assert(ordered.take(k as int) =~= ordered);
        Ok(views)
    }
}

} // verus!
