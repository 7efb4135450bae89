//! Report views: one report together with everything a moderator needs to
//! judge it, seen through the eyes of one viewer.

use vstd::prelude::*;
use crate::error::ReportError;
use crate::ids::{CommunityId, PersonId, PostId, PostReportId};
use crate::model::StoreState;
use crate::rows::{
    Community,
    CommunityFollowerState,
    Person,
    Post,
    PostAggregates,
    PostReport,
    SubscribedType,
};
use crate::store::ReportStore;

verus! {

/// A report, the post it is about, and how the post, its author and its
/// community stand to the viewer.
#[derive(Debug, PartialEq, Eq)]
pub struct PostReportView {
    pub post_report: PostReport,
    pub post: Post,
    pub community: Community,
    pub creator: Person,
    pub post_creator: Person,
    pub creator_banned_from_community: bool,
    pub creator_is_moderator: bool,
    pub creator_is_admin: bool,
    pub subscribed: SubscribedType,
    pub saved: bool,
    pub read: bool,
    pub hidden: bool,
    pub creator_blocked: bool,
    pub my_vote: Option<i16>,
    pub unread_comments: i64,
    pub counts: PostAggregates,
    pub resolver: Option<Person>,
}

/// Whether following a community has come to `state`.
pub open spec fn subscribed_type(state: Option<CommunityFollowerState>) -> SubscribedType {
    match state {
        Some(CommunityFollowerState::Accepted) => SubscribedType::Subscribed,
        Some(CommunityFollowerState::Pending) => SubscribedType::Pending,
        None => SubscribedType::NotSubscribed,
    }
}

impl StoreState {
    /// Whether `viewer` follows `community`: not, unless something stands
    /// between the two that says so.
    pub open spec fn subscribed(self, viewer: PersonId, community: CommunityId) -> SubscribedType {
        if self.community_actions.contains_key((viewer, community)) {
            subscribed_type(self.community_actions[(viewer, community)].follow_state)
        } else {
            SubscribedType::NotSubscribed
        }
    }

    /// Whether `viewer` has saved `post`.
    pub open spec fn saved(self, viewer: PersonId, post: PostId) -> bool {
        self.post_actions.contains_key((viewer, post)) && self.post_actions[(
            viewer,
            post,
        )].saved.is_some()
    }

    /// Whether `viewer` has read `post`.
    pub open spec fn has_read(self, viewer: PersonId, post: PostId) -> bool {
        self.post_actions.contains_key((viewer, post)) && self.post_actions[(
            viewer,
            post,
        )].read.is_some()
    }

    /// Whether `viewer` has hidden `post`.
    pub open spec fn hidden(self, viewer: PersonId, post: PostId) -> bool {
        self.post_actions.contains_key((viewer, post)) && self.post_actions[(
            viewer,
            post,
        )].hidden.is_some()
    }

    /// Whether `viewer` has blocked `person`.
    pub open spec fn blocked(self, viewer: PersonId, person: PersonId) -> bool {
        self.person_actions.contains_key((viewer, person)) && self.person_actions[(
            viewer,
            person,
        )].blocked.is_some()
    }

    /// The vote of `viewer` on `post`, if the viewer has voted.
    pub open spec fn my_vote(self, viewer: PersonId, post: PostId) -> Option<i16> {
        if self.post_actions.contains_key((viewer, post)) {
            self.post_actions[(viewer, post)].like_score
        } else {
            None
        }
    }

    /// The number of comments that `viewer` has read on `post`, if that was
    /// ever recorded.
    pub open spec fn comments_read(self, viewer: PersonId, post: PostId) -> Option<i64> {
        if self.post_actions.contains_key((viewer, post)) {
            self.post_actions[(viewer, post)].read_comments_amount
        } else {
            None
        }
    }

    /// The number of comments on `post` that `viewer` has not read: all of
    /// them where nothing was recorded, else the total less those read.
    pub open spec fn unread_comments(self, viewer: PersonId, post: PostId) -> int {
        match self.comments_read(viewer, post) {
            Some(n) => self.counts[post].comments - n,
            None => self.counts[post].comments as int,
        }
    }

    /// The person who resolved `report`, if it names one who is there.
    pub open spec fn resolver_of(self, report: PostReport) -> Option<Person> {
        match report.resolver_id {
            Some(id) => if self.persons.contains_key(id) {
                Some(self.persons[id])
            } else {
                None
            },
            None => None,
        }
    }

    /// Whether a view of `report` can be assembled: its post, the totals,
    /// community and author of the post, and its creator are all there.
    pub open spec fn viewable(self, report: PostReport) -> bool {
        &&& self.posts.contains_key(report.post_id)
        &&& self.counts.contains_key(report.post_id)
        &&& self.communities.contains_key(self.posts[report.post_id].community_id)
        &&& self.persons.contains_key(report.creator_id)
        &&& self.persons.contains_key(self.posts[report.post_id].creator_id)
    }

    /// The view of `report` for `viewer`.
    ///
    /// What concerns the author of the post (banned, moderator, admin) is the
    /// author's standing, whoever looks; the rest is relative to the viewer.
    /// Where no relationship is recorded, each flag is false and each
    /// optional value absent.
    pub open spec fn view_of(self, report: PostReport, viewer: PersonId) -> PostReportView {
        let post = self.posts[report.post_id];
        PostReportView {
            post_report: report,
            post,
            community: self.communities[post.community_id],
            creator: self.persons[report.creator_id],
            post_creator: self.persons[post.creator_id],
            creator_banned_from_community: self.is_banned(post.creator_id, post.community_id),
            creator_is_moderator: self.is_moderator(post.creator_id, post.community_id),
            creator_is_admin: self.is_admin(post.creator_id),
            subscribed: self.subscribed(viewer, post.community_id),
            saved: self.saved(viewer, post.id),
            read: self.has_read(viewer, post.id),
            hidden: self.hidden(viewer, post.id),
            creator_blocked: self.blocked(viewer, post.creator_id),
            my_vote: self.my_vote(viewer, post.id),
            unread_comments: self.unread_comments(viewer, post.id) as i64,
            counts: self.counts[post.id],
            resolver: self.resolver_of(report),
        }
    }

    /// Whether `report` counts for `viewer`: it is unresolved, it belongs to
    /// `community` where one is named, and, unless the viewer is an admin,
    /// the viewer moderates the community of its post.
    pub open spec fn counted(
        self,
        report: PostReport,
        viewer: PersonId,
        admin: bool,
        community: Option<CommunityId>,
    ) -> bool {
        &&& self.posts.contains_key(report.post_id)
        &&& !report.resolved
        &&& community matches Some(c) ==> self.posts[report.post_id].community_id == c
        &&& !admin ==> self.is_moderator(viewer, self.posts[report.post_id].community_id)
    }

    /// The reports that count for `viewer`.
    pub open spec fn counted_reports(
        self,
        viewer: PersonId,
        admin: bool,
        community: Option<CommunityId>,
    ) -> Seq<PostReport> {
        self.reports.filter(|r: PostReport| self.counted(r, viewer, admin, community))
    }

    /// The number of reports that count for `viewer`.
    pub open spec fn report_count(
        self,
        viewer: PersonId,
        admin: bool,
        community: Option<CommunityId>,
    ) -> int {
        self.counted_reports(viewer, admin, community).len() as int
    }
}

/// Tells how far following a community has come as a subscription.
pub fn subscribed_from(state: Option<CommunityFollowerState>) -> (kind: SubscribedType)
    ensures
        kind == subscribed_type(state),
{
    match state {
        Some(CommunityFollowerState::Accepted) => SubscribedType::Subscribed,
        Some(CommunityFollowerState::Pending) => SubscribedType::Pending,
        None => SubscribedType::NotSubscribed,
    }
}

impl PostReportView {
    /// Assembles the view of `report` for the viewer `my_person_id`, or
    /// nothing where a record that the view needs is not in the store.
    pub fn assemble(store: &ReportStore, report: &PostReport, my_person_id: PersonId) -> (view:
        Option<PostReportView>)
        requires
            store@.wf(),
        ensures
            match view {
                Some(v) => store@.viewable(*report) && v == store@.view_of(*report, my_person_id),
                None => !store@.viewable(*report),
            },
    {
        let post = match store.post(report.post_id) {
            Some(p) => p,
            None => {
                return None;
            },
        };
        let counts = match store.post_aggregates(report.post_id) {
            Some(c) => *c,
            None => {
                return None;
            },
        };
        let community = match store.community(post.community_id) {
            Some(c) => c,
            None => {
                return None;
            },
        };
        let creator = match store.person(report.creator_id) {
            Some(p) => p,
            None => {
                return None;
            },
        };
        let post_creator = match store.person(post.creator_id) {
            Some(p) => p,
            None => {
                return None;
            },
        };
        let (creator_banned_from_community, creator_is_moderator) = match store.community_actions(
            post.creator_id,
            post.community_id,
        ) {
            Some(a) => (a.received_ban.is_some(), a.became_moderator.is_some()),
            None => (false, false),
        };
        let creator_is_admin = match store.local_user(post.creator_id) {
            Some(u) => u.admin,
            None => false,
        };
        let subscribed = match store.community_actions(my_person_id, post.community_id) {
            Some(a) => subscribed_from(a.follow_state),
            None => SubscribedType::NotSubscribed,
        };
        let mine = store.post_actions(my_person_id, post.id);
        let (saved, read, hidden, my_vote, comments_read) = match mine {
            Some(a) => (
                a.saved.is_some(),
                a.read.is_some(),
                a.hidden.is_some(),
                a.like_score,
                a.read_comments_amount,
            ),
            None => (false, false, false, None, None),
        };
        let unread_comments: i64 = match comments_read {
            Some(n) => counts.comments - n,
            None => counts.comments,
        };
        let creator_blocked = match store.person_actions(my_person_id, post.creator_id) {
            Some(a) => a.blocked.is_some(),
            None => false,
        };
        let resolver = match report.resolver_id {
            Some(id) => match store.person(id) {
                Some(p) => Some(p.clone()),
                None => None,
            },
            None => None,
        };
        Some(
            PostReportView {
                post_report: report.clone(),
                post: post.clone(),
                community: community.clone(),
                creator: creator.clone(),
                post_creator: post_creator.clone(),
                creator_banned_from_community,
                creator_is_moderator,
                creator_is_admin,
                subscribed,
                saved,
                read,
                hidden,
                creator_blocked,
                my_vote,
                unread_comments,
                counts,
                resolver,
            },
        )
    }

    /// Returns the view of the report `report_id` for the viewer
    /// `my_person_id`.
    ///
    /// Whether the viewer may see the report is not looked into here: that is
    /// for the caller to have settled. Fails with `NotFound` exactly when no
    /// report has that identifier.
    pub fn read(store: &ReportStore, report_id: PostReportId, my_person_id: PersonId) -> (result:
        Result<PostReportView, ReportError>)
        requires
            store@.wf(),
        ensures
            match result {
                Ok(v) => store@.has_report(report_id) && v == store@.view_of(
                    store@.reports[store@.report_index(report_id)],
                    my_person_id,
                ),
                Err(e) => !store@.has_report(report_id) && e == ReportError::NotFound,
            },
    {
        let i = match store.find_report(report_id) {
            Some(i) => i,
            None => {
                return Err(ReportError::NotFound);
            },
        };
        let reports = store.reports();
        proof {
            assert(store@.report_refers(store@.reports[i as int]));
        }
        Ok(Self::assemble(store, &reports[i], my_person_id).unwrap())
    }

    /// Returns the number of unresolved reports that concern the viewer
    /// `my_person_id`: all of them for an admin, else those on posts in the
    /// communities that the viewer moderates; within `community_id` only,
    /// where one is named.
    pub fn get_report_count(
        store: &ReportStore,
        my_person_id: PersonId,
        admin: bool,
        community_id: Option<CommunityId>,
    ) -> (count: i64)
        requires
            store@.wf(),
        ensures
            count == store@.report_count(my_person_id, admin, community_id),
    {
        let reports = store.reports();
        let ghost keep = |r: PostReport| store@.counted(r, my_person_id, admin, community_id);
        let mut count: i64 = 0;
        let mut i: usize = 0;
        assert(reports@.take(0) =~= Seq::<PostReport>::empty());
        while i < reports.len()
            invariant
                i <= reports.len(),
                reports@ == store@.reports,
                reports@.len() <= i32::MAX,
                keep == (|r: PostReport| store@.counted(r, my_person_id, admin, community_id)),
                count == reports@.take(i as int).filter(keep).len(),
                count <= i,
            decreases reports.len() - i,
        {
            let report = &reports[i];
            let counted = !report.resolved && match store.post(report.post_id) {
                Some(post) => {
                    let in_community = match community_id {
                        Some(c) => post.community_id == c,
                        None => true,
                    };
                    in_community && (admin || match store.community_actions(
                        my_person_id,
                        post.community_id,
                    ) {
                        Some(a) => a.became_moderator.is_some(),
                        None => false,
                    })
                },
                None => false,
            };
            proof {
                assert(counted == keep(reports@[i as int]));
                assert(reports@.take(i + 1) =~= reports@.take(i as int).push(reports@[i as int]));
                reports@.take(i as int).lemma_filter_push(reports@[i as int], keep);
            }
            if counted {
                count += 1;
            }
            i += 1;
        }
        assert(reports@.take(i as int) =~= reports@);
        count
    }
}

} // verus!
