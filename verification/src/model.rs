//! The mathematical model of the report store: what it holds, when that is
//! consistent, and what each change makes of it.

use vstd::prelude::*;
use crate::ids::{CommunityId, PersonId, PostId, PostReportId};
use crate::rows::{
    Community,
    CommunityActions,
    LocalUser,
    Person,
    PersonActions,
    Post,
    PostActions,
    PostAggregates,
    PostReport,
    PostReportForm,
};

verus! {

/// The contents of a report store.
///
/// Entities are found by their identifier, relationships by the pair they
/// relate. The reports are kept in the order in which they were filed, the
/// oldest first.
#[verifier::ext_equal]
pub struct StoreState {
    pub persons: Map<PersonId, Person>,
    pub local_users: Map<PersonId, LocalUser>,
    pub communities: Map<CommunityId, Community>,
    pub posts: Map<PostId, Post>,
    pub counts: Map<PostId, PostAggregates>,
    pub community_actions: Map<(PersonId, CommunityId), CommunityActions>,
    pub post_actions: Map<(PersonId, PostId), PostActions>,
    pub person_actions: Map<(PersonId, PersonId), PersonActions>,
    pub reports: Seq<PostReport>,
    /// The highest identifier that a report has had so far.
    pub last_report_id: i32,
}

/// The totals of a post that nobody has commented or voted on.
pub open spec fn fresh_counts(post_id: PostId) -> PostAggregates {
    PostAggregates { post_id, comments: 0, score: 0, upvotes: 0, downvotes: 0 }
}

/// The report that filing `form` at the instant `now` creates under `id`.
pub open spec fn filed_report(id: PostReportId, form: PostReportForm, now: i64) -> PostReport {
    PostReport {
        id,
        creator_id: form.creator_id,
        post_id: form.post_id,
        original_post_name: form.original_post_name,
        original_post_url: form.original_post_url,
        original_post_body: form.original_post_body,
        reason: form.reason,
        resolved: false,
        resolver_id: None,
        published: now,
        updated: None,
    }
}

/// `report`, marked as resolved by `resolver` at the instant `now`.
pub open spec fn resolved_report(report: PostReport, resolver: PersonId, now: i64) -> PostReport {
    PostReport { resolved: true, resolver_id: Some(resolver), updated: Some(now), ..report }
}

/// `report`, marked as open again at the instant `now`.
pub open spec fn reopened_report(report: PostReport, now: i64) -> PostReport {
    PostReport { resolved: false, resolver_id: None, updated: Some(now), ..report }
}

/// Where a report filed at the instant `now` goes among `reports`: behind
/// the last one that was not filed later.
pub open spec fn filing_slot(reports: Seq<PostReport>, now: i64) -> int
    decreases reports.len(),
{
    if reports.len() == 0 {
        0
    } else if reports.last().published <= now {
        reports.len() as int
    } else {
        filing_slot(reports.drop_last(), now)
    }
}

/// The reports of a consistent store keep referring to what is there as long
/// as the reports stay as they are and no person and no post goes away.
pub proof fn lemma_reports_keep_referring(before: StoreState, after: StoreState)
    requires
        before.wf(),
        after.reports == before.reports,
        forall|id: PersonId| #[trigger]
            before.persons.contains_key(id) ==> after.persons.contains_key(id),
        forall|id: PostId| #[trigger] before.posts.contains_key(id) ==> after.posts.contains_key(id),
    ensures
        forall|i: int|
            0 <= i < after.reports.len() ==> after.report_refers(#[trigger] after.reports[i]),
{
    assert forall|i: int| 0 <= i < after.reports.len() implies after.report_refers(
        #[trigger] after.reports[i],
    ) by {
        assert(before.report_refers(before.reports[i]));
    }
}

impl StoreState {
    /// The store that holds nothing.
    pub open spec fn empty() -> StoreState {
        StoreState {
            persons: Map::empty(),
            local_users: Map::empty(),
            communities: Map::empty(),
            posts: Map::empty(),
            counts: Map::empty(),
            community_actions: Map::empty(),
            post_actions: Map::empty(),
            person_actions: Map::empty(),
            reports: Seq::empty(),
            last_report_id: 0,
        }
    }

    /// Every record is filed under the key that it names itself.
    pub open spec fn keys_agree(self) -> bool {
        &&& forall|id: PersonId| #[trigger]
            self.persons.contains_key(id) ==> self.persons[id].id == id
        &&& forall|id: PersonId| #[trigger]
            self.local_users.contains_key(id) ==> self.local_users[id].person_id == id
        &&& forall|id: CommunityId| #[trigger]
            self.communities.contains_key(id) ==> self.communities[id].id == id
        &&& forall|id: PostId| #[trigger] self.posts.contains_key(id) ==> self.posts[id].id == id
        &&& forall|id: PostId| #[trigger]
            self.counts.contains_key(id) ==> self.counts[id].post_id == id
        &&& forall|k: (PersonId, CommunityId)| #[trigger]
            self.community_actions.contains_key(k) ==> self.community_actions[k].person_id == k.0
                && self.community_actions[k].community_id == k.1
        &&& forall|k: (PersonId, PostId)| #[trigger]
            self.post_actions.contains_key(k) ==> self.post_actions[k].person_id == k.0
                && self.post_actions[k].post_id == k.1
        &&& forall|k: (PersonId, PersonId)| #[trigger]
            self.person_actions.contains_key(k) ==> self.person_actions[k].person_id == k.0
                && self.person_actions[k].target_id == k.1
    }

    /// What a post or a report refers to is there: the community and the
    /// author of each post and its totals; the post, the creator and, where
    /// there is one, the resolver of each report.
    pub open spec fn references_hold(self) -> bool {
        &&& forall|id: PostId| #[trigger]
            self.posts.contains_key(id) ==> self.communities.contains_key(
                self.posts[id].community_id,
            ) && self.persons.contains_key(self.posts[id].creator_id) && self.counts.contains_key(
                id,
            )
        &&& forall|i: int|
            0 <= i < self.reports.len() ==> self.report_refers(#[trigger] self.reports[i])
    }

    /// The post and the creator of `report` are there, and so is its
    /// resolver if it has one.
    pub open spec fn report_refers(self, report: PostReport) -> bool {
        &&& self.posts.contains_key(report.post_id)
        &&& self.persons.contains_key(report.creator_id)
        &&& report.resolver_id matches Some(resolver) ==> self.persons.contains_key(resolver)
    }

    /// No count is negative: neither the comments of a post nor the number of
    /// them that a person has read.
    pub open spec fn amounts_hold(self) -> bool {
        &&& forall|id: PostId| #[trigger]
            self.counts.contains_key(id) ==> self.counts[id].comments >= 0
        &&& forall|k: (PersonId, PostId)| #[trigger]
            self.post_actions.contains_key(k) ==> (
            self.post_actions[k].read_comments_amount matches Some(n) ==> n >= 0)
    }

    /// No report has an identifier above the highest so far, no two share an
    /// identifier, no person has reported a post twice, the reports stand in
    /// the order of filing, and each is resolved exactly when it names a
    /// resolver.
    pub open spec fn reports_hold(self) -> bool {
        &&& self.reports.len() <= i32::MAX
        &&& forall|i: int|
            0 <= i < self.reports.len() ==> (#[trigger] self.reports[i]).id.0
                <= self.last_report_id
        &&& forall|i: int, j: int|
            0 <= i < j < self.reports.len() ==> (#[trigger] self.reports[i]).id != (
            #[trigger] self.reports[j]).id
        &&& forall|i: int, j: int|
            0 <= i < j < self.reports.len() ==> !((#[trigger] self.reports[i]).creator_id == (
            #[trigger] self.reports[j]).creator_id && self.reports[i].post_id
                == self.reports[j].post_id)
        &&& forall|i: int, j: int|
            0 <= i <= j < self.reports.len() ==> (#[trigger] self.reports[i]).published <= (
            #[trigger] self.reports[j]).published
        &&& forall|i: int|
            0 <= i < self.reports.len() ==> (#[trigger] self.reports[i]).resolved
                == self.reports[i].resolver_id.is_some()
    }

    /// The store is consistent.
    pub open spec fn wf(self) -> bool {
        &&& self.keys_agree()
        &&& self.references_hold()
        &&& self.amounts_hold()
        &&& self.reports_hold()
    }

    /// Whether `person` holds moderator status in `community`.
    pub open spec fn is_moderator(self, person: PersonId, community: CommunityId) -> bool {
        self.community_actions.contains_key((person, community)) && self.community_actions[(
            person,
            community,
        )].became_moderator.is_some()
    }

    /// Whether `person` is banned from `community`.
    pub open spec fn is_banned(self, person: PersonId, community: CommunityId) -> bool {
        self.community_actions.contains_key((person, community)) && self.community_actions[(
            person,
            community,
        )].received_ban.is_some()
    }

    /// Whether `person` is a site admin.
    pub open spec fn is_admin(self, person: PersonId) -> bool {
        self.local_users.contains_key(person) && self.local_users[person].admin
    }

    /// Whether a report with the identifier `id` is there.
    pub open spec fn has_report(self, id: PostReportId) -> bool {
        exists|i: int| 0 <= i < self.reports.len() && (#[trigger] self.reports[i]).id == id
    }

    /// The position of the report with the identifier `id`.
    pub open spec fn report_index(self, id: PostReportId) -> int {
        choose|i: int| 0 <= i < self.reports.len() && (#[trigger] self.reports[i]).id == id
    }

    /// Whether `creator` has already reported `post`.
    pub open spec fn has_reported(self, creator: PersonId, post: PostId) -> bool {
        exists|i: int|
            0 <= i < self.reports.len() && (#[trigger] self.reports[i]).creator_id == creator
                && self.reports[i].post_id == post
    }

    /// Whether an unresolved report on `post` is there.
    pub open spec fn has_open_report(self, post: PostId) -> bool {
        exists|i: int|
            0 <= i < self.reports.len() && (#[trigger] self.reports[i]).post_id == post
                && !self.reports[i].resolved
    }

    /// The store with `person` added.
    pub open spec fn with_person(self, person: Person) -> StoreState {
        StoreState { persons: self.persons.insert(person.id, person), ..self }
    }

    /// The store with the local account `user` put in place.
    pub open spec fn with_local_user(self, user: LocalUser) -> StoreState {
        StoreState { local_users: self.local_users.insert(user.person_id, user), ..self }
    }

    /// The store with `community` added.
    pub open spec fn with_community(self, community: Community) -> StoreState {
        StoreState { communities: self.communities.insert(community.id, community), ..self }
    }

    /// The store with `post` added, its totals at zero.
    pub open spec fn with_post(self, post: Post) -> StoreState {
        StoreState {
            posts: self.posts.insert(post.id, post),
            counts: self.counts.insert(post.id, fresh_counts(post.id)),
            ..self
        }
    }

    /// The store with the totals `counts` put in place for their post.
    pub open spec fn with_counts(self, counts: PostAggregates) -> StoreState {
        StoreState { counts: self.counts.insert(counts.post_id, counts), ..self }
    }

    /// The store with `actions` put in place between their person and
    /// community.
    pub open spec fn with_community_actions(self, actions: CommunityActions) -> StoreState {
        StoreState {
            community_actions: self.community_actions.insert(
                (actions.person_id, actions.community_id),
                actions,
            ),
            ..self
        }
    }

    /// The store with `actions` put in place between their person and post.
    pub open spec fn with_post_actions(self, actions: PostActions) -> StoreState {
        StoreState {
            post_actions: self.post_actions.insert((actions.person_id, actions.post_id), actions),
            ..self
        }
    }

    /// The store with `actions` put in place between their person and the
    /// person they concern.
    pub open spec fn with_person_actions(self, actions: PersonActions) -> StoreState {
        StoreState {
            person_actions: self.person_actions.insert(
                (actions.person_id, actions.target_id),
                actions,
            ),
            ..self
        }
    }

    /// The identifier that the next report filed gets.
    pub open spec fn next_report_id(self) -> int {
        self.last_report_id + 1
    }

    /// The store with `report` put at its place in the order of filing.
    pub open spec fn with_report(self, report: PostReport) -> StoreState {
        StoreState {
            reports: self.reports.insert(filing_slot(self.reports, report.published), report),
            last_report_id: if report.id.0 > self.last_report_id {
                report.id.0
            } else {
                self.last_report_id
            },
            ..self
        }
    }

    /// The store with the report at position `i` replaced by `report`.
    pub open spec fn with_report_at(self, i: int, report: PostReport) -> StoreState {
        StoreState { reports: self.reports.update(i, report), ..self }
    }

    /// The store after every unresolved report on `post` has been resolved by
    /// `resolver` at the instant `now`. Reports on other posts, and reports
    /// that were resolved before, stay as they are.
    pub open spec fn resolve_all(self, post: PostId, resolver: PersonId, now: i64) -> StoreState {
        StoreState {
            reports: self.reports.map_values(
                |r: PostReport|
                    if r.post_id == post && !r.resolved {
                        resolved_report(r, resolver, now)
                    } else {
                        r
                    },
            ),
            ..self
        }
    }
}

} // verus!
