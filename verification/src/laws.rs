//! What holds of the store, the views and the listings, whatever the store
//! contains: each law is a proof over the model in [`crate::model`].

use vstd::prelude::*;
use crate::ids::{CommunityId, PersonId, PostId, PostReportId};
use crate::model::{filed_report, filing_slot, StoreState};
use crate::pagination::{lemma_window_nonnegative, page_limit, page_offset, pagination_valid};
use crate::query::{page_of, PostReportQuery};
use crate::rows::{PostReport, PostReportForm, SubscribedType};

verus! {

/// Whether `s` stands in the order of filing: oldest first if `oldest_first`
/// is set, else newest first.
pub open spec fn in_time_order(s: Seq<PostReport>, oldest_first: bool) -> bool {
    forall|i: int, j: int|
        0 <= i <= j < s.len() ==> if oldest_first {
            (#[trigger] s[i]).published <= (#[trigger] s[j]).published
        } else {
            s[i].published >= s[j].published
        }
}

/// A report goes to a place among those that are there.
pub proof fn lemma_filing_slot_in_range(reports: Seq<PostReport>, now: i64)
    ensures
        0 <= filing_slot(reports, now) <= reports.len(),
    decreases reports.len(),
{
    if reports.len() > 0 && reports.last().published > now {
        lemma_filing_slot_in_range(reports.drop_last(), now);
    }
}

/// Leaving reports out does not change the order of those that stay.
pub proof fn lemma_filter_keeps_order(
    s: Seq<PostReport>,
    keep: spec_fn(PostReport) -> bool,
    oldest_first: bool,
)
    requires
        in_time_order(s, oldest_first),
    ensures
        in_time_order(s.filter(keep), oldest_first),
    decreases s.len(),
{
    reveal(Seq::filter);
    if s.len() > 0 {
        let head = s.drop_last();
        let kept = head.filter(keep);
        assert forall|i: int, j: int| 0 <= i <= j < head.len() implies if oldest_first {
            (#[trigger] head[i]).published <= (#[trigger] head[j]).published
        } else {
            head[i].published >= head[j].published
        } by {
            assert(head[i] == s[i] && head[j] == s[j]);
        }
        lemma_filter_keeps_order(head, keep, oldest_first);
        if keep(s.last()) {
            let out = kept.push(s.last());
            assert forall|i: int, j: int| 0 <= i <= j < out.len() implies if oldest_first {
                (#[trigger] out[i]).published <= (#[trigger] out[j]).published
            } else {
                out[i].published >= out[j].published
            } by {
                if j < kept.len() {
                    assert(out[i] == kept[i] && out[j] == kept[j]);
                } else if i < kept.len() {
                    assert(kept.contains(kept[i]));
                    head.lemma_filter_contains_rev(keep, kept[i]);
                    let k = choose|k: int| 0 <= k < head.len() && head[k] == kept[i];
                    assert(s[k] == kept[i]);
                    assert(out[j] == s[s.len() - 1]);
                }
            }
        }
    }
}

/// Two tests that agree on every report of `s` keep the same reports of it.
pub proof fn lemma_filter_agree(
    s: Seq<PostReport>,
    p: spec_fn(PostReport) -> bool,
    q: spec_fn(PostReport) -> bool,
)
    requires
        forall|i: int| 0 <= i < s.len() ==> p(#[trigger] s[i]) == q(s[i]),
    ensures
        s.filter(p) == s.filter(q),
    decreases s.len(),
{
    reveal(Seq::filter);
    if s.len() > 0 {
        let head = s.drop_last();
        assert forall|i: int| 0 <= i < head.len() implies p(#[trigger] head[i]) == q(head[i]) by {
            assert(head[i] == s[i]);
        }
        lemma_filter_agree(head, p, q);
        assert(p(s[s.len() - 1]) == q(s[s.len() - 1]));
    }
}

/// Every report in a consistent store has a view: nothing that the view is
/// assembled from can be missing.
pub proof fn law_every_report_has_a_view(store: StoreState, i: int)
    requires
        store.wf(),
        0 <= i < store.reports.len(),
    ensures
        store.viewable(store.reports[i]),
{
    assert(store.report_refers(store.reports[i]));
}

/// A person can report a post once: after a report by `creator` on `post`
/// has been filed, the store holds that `creator` has reported `post`, which
/// is exactly when filing another such report fails.
pub proof fn law_one_report_per_creator_and_post(
    store: StoreState,
    id: PostReportId,
    form: PostReportForm,
    now: i64,
)
    ensures
        store.with_report(filed_report(id, form, now)).has_reported(form.creator_id, form.post_id),
{
    let filed = filed_report(id, form, now);
    let after = store.with_report(filed);
    lemma_filing_slot_in_range(store.reports, now);
    let slot = filing_slot(store.reports, now);
    assert(after.reports[slot] == filed);
}

/// The view of a report that nobody has resolved, for a viewer and an author
/// with no recorded relationships, is blank: no resolver, no vote, not
/// saved, read, hidden or blocked, not subscribed, the author neither
/// banned nor moderator nor admin, and every comment unread.
pub proof fn law_view_without_relationships_is_blank(
    store: StoreState,
    report: PostReport,
    viewer: PersonId,
)
    requires
        store.wf(),
        store.viewable(report),
    ensures
        ({
            let post = store.posts[report.post_id];
            let view = store.view_of(report, viewer);
            &&& view.post_report == report
            &&& report.resolver_id.is_none() ==> view.resolver.is_none()
            &&& !store.post_actions.contains_key((viewer, post.id)) ==> view.my_vote.is_none()
                && !view.saved && !view.read && !view.hidden && view.unread_comments
                == store.counts[post.id].comments
            &&& !store.community_actions.contains_key((viewer, post.community_id))
                ==> view.subscribed == SubscribedType::NotSubscribed
            &&& !store.community_actions.contains_key((post.creator_id, post.community_id))
                ==> !view.creator_banned_from_community && !view.creator_is_moderator
            &&& !store.local_users.contains_key(post.creator_id) ==> !view.creator_is_admin
            &&& !store.person_actions.contains_key((viewer, post.creator_id))
                ==> !view.creator_blocked
        }),
{
}

/// A report is unresolved when it is filed and names no resolver.
pub proof fn law_filed_report_is_unresolved(id: PostReportId, form: PostReportForm, now: i64)
    ensures
        !filed_report(id, form, now).resolved,
        filed_report(id, form, now).resolver_id.is_none(),
{
}

/// The number of unread comments in a view is the total where the viewer has
/// read none on record, else the total less what was read; it never exceeds
/// the total.
pub proof fn law_unread_comments(store: StoreState, report: PostReport, viewer: PersonId)
    requires
        store.wf(),
        store.viewable(report),
    ensures
        ({
            let post = store.posts[report.post_id];
            let total = store.counts[post.id].comments;
            let view = store.view_of(report, viewer);
            &&& view.unread_comments == store.unread_comments(viewer, post.id)
            &&& view.unread_comments <= total
            &&& store.comments_read(viewer, post.id) matches Some(n) ==> view.unread_comments
                == total - n
            &&& store.comments_read(viewer, post.id).is_none() ==> view.unread_comments == total
        }),
{
    let post = store.posts[report.post_id];
    assert(store.posts[report.post_id].id == report.post_id);
    assert(store.counts.contains_key(post.id));
    if store.post_actions.contains_key((viewer, post.id)) {
        assert(store.post_actions[(viewer, post.id)].read_comments_amount matches Some(n) ==> n
            >= 0);
    }
}

/// A listing is in the order of filing: where only unresolved reports are
/// asked for, no report comes before an older one; otherwise no report comes
/// before a newer one. Of two listed reports filed at different instants,
/// the older comes first in the one case and the newer in the other.
pub proof fn law_listing_order(store: StoreState, query: PostReportQuery, viewer: PersonId, admin: bool)
    requires
        store.wf(),
        pagination_valid(query.page, query.limit),
    ensures
        in_time_order(store.listed_reports(query, viewer, admin), query.unresolved_only),
        forall|i: int, j: int|
            0 <= i <= j < store.listing(query, viewer, admin).len() ==> if query.unresolved_only {
                (#[trigger] store.listing(query, viewer, admin)[i]).post_report.published <= (
                #[trigger] store.listing(query, viewer, admin)[j]).post_report.published
            } else {
                store.listing(query, viewer, admin)[i].post_report.published
                    >= store.listing(query, viewer, admin)[j].post_report.published
            },
{
    let ordered = store.in_order(query);
    let keep = |r: PostReport| store.listed(r, query, viewer, admin);
    assert(in_time_order(ordered, query.unresolved_only)) by {
        if !query.unresolved_only {
            let n = store.reports.len() as int;
            assert forall|i: int, j: int| 0 <= i <= j < ordered.len() implies (
            #[trigger] ordered[i]).published >= (#[trigger] ordered[j]).published by {
                assert(ordered[i] == store.reports[n - 1 - i]);
                assert(ordered[j] == store.reports[n - 1 - j]);
                assert(store.reports[n - 1 - j].published <= store.reports[n - 1 - i].published);
            }
        }
    }
    lemma_filter_keeps_order(ordered, keep, query.unresolved_only);
    let all = store.listed_reports(query, viewer, admin);
    let limit = page_limit(query.limit);
    let offset = page_offset(query.page, query.limit);
    lemma_window_nonnegative(query.page, query.limit);
    let page = page_of(all, limit, offset);
    let views = store.listing(query, viewer, admin);
    assert forall|i: int, j: int| 0 <= i <= j < views.len() implies if query.unresolved_only {
        (#[trigger] views[i]).post_report.published <= (#[trigger] views[j]).post_report.published
    } else {
        views[i].post_report.published >= views[j].post_report.published
    } by {
        assert(views[i].post_report == page[i]);
        assert(views[j].post_report == page[j]);
        assert(page[i] == all[offset + i]);
        assert(page[j] == all[offset + j]);
    }
}

/// Resolving all reports on a post leaves no report on it unresolved: each
/// report on the post that was unresolved is resolved by the given resolver,
/// and every other report is as it was. Doing it again changes nothing,
/// whoever resolves and whenever.
pub proof fn law_resolve_all(
    store: StoreState,
    post: PostId,
    resolver: PersonId,
    now: i64,
    again_by: PersonId,
    again_at: i64,
)
    ensures
        ({
            let after = store.resolve_all(post, resolver, now);
            &&& after.reports.len() == store.reports.len()
            &&& forall|i: int|
                0 <= i < store.reports.len() ==> if (#[trigger] store.reports[i]).post_id == post
                    && !store.reports[i].resolved {
                    after.reports[i].resolved && after.reports[i].resolver_id == Some(resolver)
                        && after.reports[i].id == store.reports[i].id
                } else {
                    after.reports[i] == store.reports[i]
                }
            &&& !after.has_open_report(post)
            &&& after.resolve_all(post, again_by, again_at) == after
        }),
{
    let after = store.resolve_all(post, resolver, now);
    let twice = after.resolve_all(post, again_by, again_at);
    assert(twice.reports =~= after.reports);
    assert(twice =~= after);
}

/// Resolving all reports on a post keeps a consistent store consistent,
/// provided the resolver is a person of the store.
pub proof fn law_resolve_all_keeps_consistency(
    store: StoreState,
    post: PostId,
    resolver: PersonId,
    now: i64,
)
    requires
        store.wf(),
        store.persons.contains_key(resolver),
    ensures
        store.resolve_all(post, resolver, now).wf(),
{
    let after = store.resolve_all(post, resolver, now);
    assert forall|i: int| 0 <= i < after.reports.len() implies after.report_refers(
        #[trigger] after.reports[i],
    ) by {
        assert(store.report_refers(store.reports[i]));
    }
    assert forall|i: int, j: int| 0 <= i < j < after.reports.len() implies (
    #[trigger] after.reports[i]).id != (#[trigger] after.reports[j]).id by {
        assert(store.reports[i].id != store.reports[j].id);
    }
    assert forall|i: int, j: int| 0 <= i < j < after.reports.len() implies !((
    #[trigger] after.reports[i]).creator_id == (#[trigger] after.reports[j]).creator_id
        && after.reports[i].post_id == after.reports[j].post_id) by {
        assert(!(store.reports[i].creator_id == store.reports[j].creator_id
            && store.reports[i].post_id == store.reports[j].post_id));
    }
    assert forall|i: int, j: int| 0 <= i <= j < after.reports.len() implies (
    #[trigger] after.reports[i]).published <= (#[trigger] after.reports[j]).published by {
        assert(store.reports[i].published <= store.reports[j].published);
    }
    assert forall|i: int| 0 <= i < after.reports.len() implies (
    #[trigger] after.reports[i]).id.0 <= after.last_report_id by {
        assert(store.reports[i].id.0 <= store.last_report_id);
    }
    assert forall|i: int| 0 <= i < after.reports.len() implies (
    #[trigger] after.reports[i]).resolved == after.reports[i].resolver_id.is_some() by {
        assert(store.reports[i].resolved == store.reports[i].resolver_id.is_some());
    }
}

/// Someone who is no admin is never shown a report from a community that
/// they do not moderate: every view in their listing is of a post in a
/// community where they hold moderator status.
pub proof fn law_listing_scope(store: StoreState, query: PostReportQuery, viewer: PersonId)
    requires
        store.wf(),
        pagination_valid(query.page, query.limit),
    ensures
        forall|i: int|
            0 <= i < store.listing(query, viewer, false).len() ==> store.is_moderator(
                viewer,
                (#[trigger] store.listing(query, viewer, false)[i]).community.id,
            ),
        forall|i: int|
            0 <= i < store.listed_reports(query, viewer, false).len() ==> store.is_moderator(
                viewer,
                store.posts[(#[trigger] store.listed_reports(
                    query,
                    viewer,
                    false,
                )[i]).post_id].community_id,
            ),
{
    let keep = |r: PostReport| store.listed(r, query, viewer, false);
    let all = store.listed_reports(query, viewer, false);
    let limit = page_limit(query.limit);
    let offset = page_offset(query.page, query.limit);
    lemma_window_nonnegative(query.page, query.limit);
    let page = page_of(all, limit, offset);
    let views = store.listing(query, viewer, false);
    assert forall|i: int| 0 <= i < all.len() implies store.is_moderator(
        viewer,
        store.posts[(#[trigger] all[i]).post_id].community_id,
    ) by {
        store.in_order(query).lemma_filter_pred(keep, i);
        assert(keep(all[i]));
    }
    assert forall|i: int| 0 <= i < views.len() implies store.is_moderator(
        viewer,
        (#[trigger] views[i]).community.id,
    ) by {
        let r = page[i];
        assert(r == all[offset + i]);
        assert(views[i] == store.view_of(r, viewer));
        assert(store.is_moderator(viewer, store.posts[r.post_id].community_id));
        assert(store.communities.contains_key(store.posts[r.post_id].community_id));
    }
}

/// An admin is shown the reports of every community: each report of the
/// store that passes the filters of the query is among those listed for an
/// admin, whatever the admin moderates.
pub proof fn law_admin_sees_all(store: StoreState, query: PostReportQuery, viewer: PersonId, i: int)
    requires
        store.wf(),
        0 <= i < store.reports.len(),
        query.community_id matches Some(c) ==> store.posts[store.reports[i].post_id].community_id
            == c,
        query.post_id matches Some(p) ==> store.reports[i].post_id == p,
        query.unresolved_only ==> !store.reports[i].resolved,
    ensures
        store.listed_reports(query, viewer, true).contains(store.reports[i]),
{
    let keep = |r: PostReport| store.listed(r, query, viewer, true);
    let ordered = store.in_order(query);
    let r = store.reports[i];
    assert(store.report_refers(r));
    assert(store.posts[r.post_id].id == r.post_id);
    assert(keep(r));
    let at = if query.unresolved_only {
        i
    } else {
        store.reports.len() - 1 - i
    };
    assert(ordered[at] == r);
    ordered.lemma_filter_contains(keep, at);
}

/// The count of reports is the length of the listing of unresolved reports
/// for the same viewer and the same community, before pagination.
pub proof fn law_count_is_length_of_listing(
    store: StoreState,
    viewer: PersonId,
    admin: bool,
    community: Option<CommunityId>,
    page: Option<i64>,
    limit: Option<i64>,
)
    requires
        store.wf(),
    ensures
        store.report_count(viewer, admin, community) == store.listed_reports(
            PostReportQuery {
                community_id: community,
                post_id: None,
                page,
                limit,
                unresolved_only: true,
            },
            viewer,
            admin,
        ).len(),
{
    let query = PostReportQuery {
        community_id: community,
        post_id: None,
        page,
        limit,
        unresolved_only: true,
    };
    let counted = |r: PostReport| store.counted(r, viewer, admin, community);
    let listed = |r: PostReport| store.listed(r, query, viewer, admin);
    assert forall|i: int| 0 <= i < store.reports.len() implies counted(
        #[trigger] store.reports[i],
    ) == listed(store.reports[i]) by {
        assert(store.report_refers(store.reports[i]));
    }
    lemma_filter_agree(store.reports, counted, listed);
}

/// A page of the listing of unresolved reports holds as many views as the
/// count leaves after the offset, up to the page size. So the count is the
/// length of the first page wherever the count does not exceed the page
/// size.
pub proof fn law_count_and_page(
    store: StoreState,
    viewer: PersonId,
    admin: bool,
    community: Option<CommunityId>,
    page: Option<i64>,
    limit: Option<i64>,
)
    requires
        store.wf(),
        pagination_valid(page, limit),
    ensures
        ({
            let query = PostReportQuery {
                community_id: community,
                post_id: None,
                page,
                limit,
                unresolved_only: true,
            };
            let count = store.report_count(viewer, admin, community);
            let shown = store.listing(query, viewer, admin).len();
            let offset = page_offset(page, limit);
            &&& shown == if count <= offset {
                0
            } else if count - offset <= page_limit(limit) {
                count - offset
            } else {
                page_limit(limit)
            }
            &&& offset == 0 && count <= page_limit(limit) ==> shown == count
        }),
{
    law_count_is_length_of_listing(store, viewer, admin, community, page, limit);
    lemma_window_nonnegative(page, limit);
}

} // verus!
