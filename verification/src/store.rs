//! The report store: the records that report views are assembled from, and
//! the operations that file and resolve reports.

use vstd::prelude::*;
use std::collections::HashMap;
use crate::error::ReportError;
use crate::ids::{
    edge_key,
    lemma_edge_key_injective,
    make_edge_key,
    CommunityId,
    PersonId,
    PostId,
    PostReportId,
};
use crate::model::{
    filed_report,
    filing_slot,
    fresh_counts,
    lemma_reports_keep_referring,
    reopened_report,
    resolved_report,
    StoreState,
};
use crate::rows::{
    clone_text,
    Community,
    CommunityActions,
    LocalUser,
    Person,
    PersonActions,
    Post,
    PostActions,
    PostAggregates,
    PostReport,
    PostReportForm,
};

verus! {

broadcast use vstd::std_specs::hash::group_hash_axioms;

/// A store of persons, communities, posts, the relationships between them,
/// and the reports filed on posts.
///
/// Its contents are read through its view, a [`StoreState`]; every operation
/// keeps the view consistent.
pub struct ReportStore {
    persons: HashMap<i32, Person>,
    local_users: HashMap<i32, LocalUser>,
    communities: HashMap<i32, Community>,
    posts: HashMap<i32, Post>,
    counts: HashMap<i32, PostAggregates>,
    community_actions: HashMap<u64, CommunityActions>,
    post_actions: HashMap<u64, PostActions>,
    person_actions: HashMap<u64, PersonActions>,
    reports: Vec<PostReport>,
    last_report_id: i32,
}

impl View for ReportStore {
    type V = StoreState;

    closed spec fn view(&self) -> StoreState {
        StoreState {
            persons: Map::new(
                |id: PersonId| self.persons@.contains_key(id.0),
                |id: PersonId| self.persons@[id.0],
            ),
            local_users: Map::new(
                |id: PersonId| self.local_users@.contains_key(id.0),
                |id: PersonId| self.local_users@[id.0],
            ),
            communities: Map::new(
                |id: CommunityId| self.communities@.contains_key(id.0),
                |id: CommunityId| self.communities@[id.0],
            ),
            posts: Map::new(
                |id: PostId| self.posts@.contains_key(id.0),
                |id: PostId| self.posts@[id.0],
            ),
            counts: Map::new(
                |id: PostId| self.counts@.contains_key(id.0),
                |id: PostId| self.counts@[id.0],
            ),
            community_actions: Map::new(
                |k: (PersonId, CommunityId)|
                    self.community_actions@.contains_key(edge_key(k.0.0, k.1.0)),
                |k: (PersonId, CommunityId)| self.community_actions@[edge_key(k.0.0, k.1.0)],
            ),
            post_actions: Map::new(
                |k: (PersonId, PostId)| self.post_actions@.contains_key(edge_key(k.0.0, k.1.0)),
                |k: (PersonId, PostId)| self.post_actions@[edge_key(k.0.0, k.1.0)],
            ),
            person_actions: Map::new(
                |k: (PersonId, PersonId)| self.person_actions@.contains_key(edge_key(k.0.0, k.1.0)),
                |k: (PersonId, PersonId)| self.person_actions@[edge_key(k.0.0, k.1.0)],
            ),
            reports: self.reports@,
            last_report_id: self.last_report_id,
        }
    }
}

impl ReportStore {
    /// An empty store.
    pub fn new() -> (store: ReportStore)
        ensures
            store@ == StoreState::empty(),
            store@.wf(),
    {
        let store = ReportStore {
            persons: HashMap::new(),
            local_users: HashMap::new(),
            communities: HashMap::new(),
            posts: HashMap::new(),
            counts: HashMap::new(),
            community_actions: HashMap::new(),
            post_actions: HashMap::new(),
            person_actions: HashMap::new(),
            reports: Vec::new(),
            last_report_id: 0,
        };
        assert(store@ =~= StoreState::empty());
        store
    }

    /// The person with the identifier `id`, if there is one.
    pub fn person(&self, id: PersonId) -> (found: Option<&Person>)
        ensures
            match found {
                Some(p) => self@.persons.contains_key(id) && *p == self@.persons[id],
                None => !self@.persons.contains_key(id),
            },
    {
        self.persons.get(&id.0)
    }

    /// The local account of the person `id`, if that person has one.
    pub fn local_user(&self, id: PersonId) -> (found: Option<&LocalUser>)
        ensures
            match found {
                Some(u) => self@.local_users.contains_key(id) && *u == self@.local_users[id],
                None => !self@.local_users.contains_key(id),
            },
    {
        self.local_users.get(&id.0)
    }

    /// The community with the identifier `id`, if there is one.
    pub fn community(&self, id: CommunityId) -> (found: Option<&Community>)
        ensures
            match found {
                Some(c) => self@.communities.contains_key(id) && *c == self@.communities[id],
                None => !self@.communities.contains_key(id),
            },
    {
        self.communities.get(&id.0)
    }

    /// The post with the identifier `id`, if there is one.
    pub fn post(&self, id: PostId) -> (found: Option<&Post>)
        ensures
            match found {
                Some(p) => self@.posts.contains_key(id) && *p == self@.posts[id],
                None => !self@.posts.contains_key(id),
            },
    {
        self.posts.get(&id.0)
    }

    /// The totals of the post `id`, if that post is there.
    pub fn post_aggregates(&self, id: PostId) -> (found: Option<&PostAggregates>)
        ensures
            match found {
                Some(c) => self@.counts.contains_key(id) && *c == self@.counts[id],
                None => !self@.counts.contains_key(id),
            },
    {
        self.counts.get(&id.0)
    }

    /// What stands between `person` and `community`, if anything.
    pub fn community_actions(&self, person: PersonId, community: CommunityId) -> (found: Option<
        &CommunityActions,
    >)
        ensures
            match found {
                Some(a) => self@.community_actions.contains_key((person, community)) && *a
                    == self@.community_actions[(person, community)],
                None => !self@.community_actions.contains_key((person, community)),
            },
    {
        let key = make_edge_key(person.0, community.0);
        self.community_actions.get(&key)
    }

    /// What `person` has done with `post`, if anything.
    pub fn post_actions(&self, person: PersonId, post: PostId) -> (found: Option<&PostActions>)
        ensures
            match found {
                Some(a) => self@.post_actions.contains_key((person, post)) && *a
                    == self@.post_actions[(person, post)],
                None => !self@.post_actions.contains_key((person, post)),
            },
    {
        let key = make_edge_key(person.0, post.0);
        self.post_actions.get(&key)
    }

    /// What `person` has done about `target`, if anything.
    pub fn person_actions(&self, person: PersonId, target: PersonId) -> (found: Option<
        &PersonActions,
    >)
        ensures
            match found {
                Some(a) => self@.person_actions.contains_key((person, target)) && *a
                    == self@.person_actions[(person, target)],
                None => !self@.person_actions.contains_key((person, target)),
            },
    {
        let key = make_edge_key(person.0, target.0);
        self.person_actions.get(&key)
    }

    /// The reports, in the order of filing.
    pub fn reports(&self) -> (all: &Vec<PostReport>)
        ensures
            all@ == self@.reports,
    {
        &self.reports
    }

    /// Adds a person.
    ///
    /// Fails with `UniqueViolation`, and changes nothing, exactly when a
    /// person with the same identifier is there already.
    pub fn insert_person(&mut self, person: Person) -> (result: Result<(), ReportError>)
        requires
            old(self)@.wf(),
        ensures
            final(self)@.wf(),
            match result {
                Ok(_) => !old(self)@.persons.contains_key(person.id) && final(self)@ == old(
                    self,
                )@.with_person(person),
                Err(e) => old(self)@.persons.contains_key(person.id) && e
                    == ReportError::UniqueViolation && final(self)@ == old(self)@,
            },
    {
        if self.persons.contains_key(&person.id.0) {
            return Err(ReportError::UniqueViolation);
        }
        let ghost before = self@;
        let ghost added = person;
        self.persons.insert(person.id.0, person);
        proof {
            let want = before.with_person(added);
            assert(self@ =~= want);
            lemma_reports_keep_referring(before, want);
        }
        Ok(())
    }

    /// Adds a community.
    ///
    /// Fails with `UniqueViolation`, and changes nothing, exactly when a
    /// community with the same identifier is there already.
    pub fn insert_community(&mut self, community: Community) -> (result: Result<(), ReportError>)
        requires
            old(self)@.wf(),
        ensures
            final(self)@.wf(),
            match result {
                Ok(_) => !old(self)@.communities.contains_key(community.id) && final(self)@ == old(
                    self,
                )@.with_community(community),
                Err(e) => old(self)@.communities.contains_key(community.id) && e
                    == ReportError::UniqueViolation && final(self)@ == old(self)@,
            },
    {
        if self.communities.contains_key(&community.id.0) {
            return Err(ReportError::UniqueViolation);
        }
        let ghost before = self@;
        let ghost added = community;
        self.communities.insert(community.id.0, community);
        proof {
            let want = before.with_community(added);
            assert(self@ =~= want);
            lemma_reports_keep_referring(before, want);
        }
        Ok(())
    }

    /// Puts the local account `user` in place, instead of the one its person
    /// had, if any.
    ///
    /// Fails with `ForeignKeyViolation`, and changes nothing, exactly when
    /// the person is not there.
    pub fn put_local_user(&mut self, user: LocalUser) -> (result: Result<(), ReportError>)
        requires
            old(self)@.wf(),
        ensures
            final(self)@.wf(),
            match result {
                Ok(_) => old(self)@.persons.contains_key(user.person_id) && final(self)@ == old(
                    self,
                )@.with_local_user(user),
                Err(e) => !old(self)@.persons.contains_key(user.person_id) && e
                    == ReportError::ForeignKeyViolation && final(self)@ == old(self)@,
            },
    {
        if !self.persons.contains_key(&user.person_id.0) {
            return Err(ReportError::ForeignKeyViolation);
        }
        let ghost before = self@;
        self.local_users.insert(user.person_id.0, user);
        proof {
            let want = before.with_local_user(user);
            assert(self@ =~= want);
            lemma_reports_keep_referring(before, want);
        }
        Ok(())
    }

    /// Adds a post, with its totals at zero.
    ///
    /// Fails, and changes nothing: with `UniqueViolation` exactly when a post
    /// with the same identifier is there already; otherwise with
    /// `ForeignKeyViolation` exactly when its community or its author is not
    /// there.
    pub fn insert_post(&mut self, post: Post) -> (result: Result<(), ReportError>)
        requires
            old(self)@.wf(),
        ensures
            final(self)@.wf(),
            match result {
                Ok(_) => !old(self)@.posts.contains_key(post.id) && old(
                    self,
                )@.communities.contains_key(post.community_id) && old(self)@.persons.contains_key(
                    post.creator_id,
                ) && final(self)@ == old(self)@.with_post(post),
                Err(e) => final(self)@ == old(self)@ && if old(self)@.posts.contains_key(post.id) {
                    e == ReportError::UniqueViolation
                } else {
                    e == ReportError::ForeignKeyViolation && !(old(
                        self,
                    )@.communities.contains_key(post.community_id) && old(
                        self,
                    )@.persons.contains_key(post.creator_id))
                },
            },
    {
        if self.posts.contains_key(&post.id.0) {
            return Err(ReportError::UniqueViolation);
        }
        if !self.communities.contains_key(&post.community_id.0) || !self.persons.contains_key(
            &post.creator_id.0,
        ) {
            return Err(ReportError::ForeignKeyViolation);
        }
        let ghost before = self@;
        let ghost added = post;
        let counts = PostAggregates {
            post_id: post.id,
            comments: 0,
            score: 0,
            upvotes: 0,
            downvotes: 0,
        };
        self.counts.insert(post.id.0, counts);
        self.posts.insert(post.id.0, post);
        proof {
            let want = before.with_post(added);
            assert(counts == fresh_counts(added.id));
            assert(self@ =~= want);
            lemma_reports_keep_referring(before, want);
        }
        Ok(())
    }

    /// Puts the totals `counts` in place for their post.
    ///
    /// Fails, and changes nothing: with `ForeignKeyViolation` exactly when
    /// the post is not there; otherwise with `CheckViolation` exactly when
    /// the number of comments is negative.
    pub fn put_post_aggregates(&mut self, counts: PostAggregates) -> (result: Result<
        (),
        ReportError,
    >)
        requires
            old(self)@.wf(),
        ensures
            final(self)@.wf(),
            match result {
                Ok(_) => old(self)@.posts.contains_key(counts.post_id) && counts.comments >= 0
                    && final(self)@ == old(self)@.with_counts(counts),
                Err(e) => final(self)@ == old(self)@ && if !old(self)@.posts.contains_key(
                    counts.post_id,
                ) {
                    e == ReportError::ForeignKeyViolation
                } else {
                    e == ReportError::CheckViolation && counts.comments < 0
                },
            },
    {
        if !self.posts.contains_key(&counts.post_id.0) {
            return Err(ReportError::ForeignKeyViolation);
        }
        if counts.comments < 0 {
            return Err(ReportError::CheckViolation);
        }
        let ghost before = self@;
        self.counts.insert(counts.post_id.0, counts);
        proof {
            let want = before.with_counts(counts);
            assert(self@ =~= want);
            lemma_reports_keep_referring(before, want);
        }
        Ok(())
    }

    /// Puts `actions` in place between their person and community, instead
    /// of what stood between the two, if anything.
    ///
    /// Fails with `ForeignKeyViolation`, and changes nothing, exactly when
    /// the person or the community is not there.
    pub fn put_community_actions(&mut self, actions: CommunityActions) -> (result: Result<
        (),
        ReportError,
    >)
        requires
            old(self)@.wf(),
        ensures
            final(self)@.wf(),
            match result {
                Ok(_) => old(self)@.persons.contains_key(actions.person_id) && old(
                    self,
                )@.communities.contains_key(actions.community_id) && final(self)@ == old(
                    self,
                )@.with_community_actions(actions),
                Err(e) => !(old(self)@.persons.contains_key(actions.person_id) && old(
                    self,
                )@.communities.contains_key(actions.community_id)) && e
                    == ReportError::ForeignKeyViolation && final(self)@ == old(self)@,
            },
    {
        if !self.persons.contains_key(&actions.person_id.0) || !self.communities.contains_key(
            &actions.community_id.0,
        ) {
            return Err(ReportError::ForeignKeyViolation);
        }
        let ghost before = self@;
        let key = make_edge_key(actions.person_id.0, actions.community_id.0);
        self.community_actions.insert(key, actions);
        proof {
            let want = before.with_community_actions(actions);
            assert forall|k: (PersonId, CommunityId)|
                edge_key(k.0.0, k.1.0) == key implies k == (
                actions.person_id,
                actions.community_id,
            ) by {
                lemma_edge_key_injective(
                    k.0.0,
                    k.1.0,
                    actions.person_id.0,
                    actions.community_id.0,
                );
            }
            assert(self@.community_actions =~= want.community_actions);
            assert(self@ =~= want);
            lemma_reports_keep_referring(before, want);
        }
        Ok(())
    }

    /// Puts `actions` in place between their person and post, instead of
    /// what the person had done with the post, if anything.
    ///
    /// Fails, and changes nothing: with `ForeignKeyViolation` exactly when
    /// the person or the post is not there; otherwise with `CheckViolation`
    /// exactly when the number of comments read is negative.
    pub fn put_post_actions(&mut self, actions: PostActions) -> (result: Result<(), ReportError>)
        requires
            old(self)@.wf(),
        ensures
            final(self)@.wf(),
            match result {
                Ok(_) => old(self)@.persons.contains_key(actions.person_id) && old(
                    self,
                )@.posts.contains_key(actions.post_id) && !(actions.read_comments_amount matches Some(
                    n,
                ) && n < 0) && final(self)@ == old(self)@.with_post_actions(actions),
                Err(e) => final(self)@ == old(self)@ && if !(old(self)@.persons.contains_key(
                    actions.person_id,
                ) && old(self)@.posts.contains_key(actions.post_id)) {
                    e == ReportError::ForeignKeyViolation
                } else {
                    e == ReportError::CheckViolation && (
                    actions.read_comments_amount matches Some(n) && n < 0)
                },
            },
    {
        if !self.persons.contains_key(&actions.person_id.0) || !self.posts.contains_key(
            &actions.post_id.0,
        ) {
            return Err(ReportError::ForeignKeyViolation);
        }
        match actions.read_comments_amount {
            Some(n) => {
                if n < 0 {
                    return Err(ReportError::CheckViolation);
                }
            },
            None => {},
        }
        let ghost before = self@;
        let key = make_edge_key(actions.person_id.0, actions.post_id.0);
        self.post_actions.insert(key, actions);
        proof {
            let want = before.with_post_actions(actions);
            assert forall|k: (PersonId, PostId)| edge_key(k.0.0, k.1.0) == key implies k == (
                actions.person_id,
                actions.post_id,
            ) by {
                lemma_edge_key_injective(k.0.0, k.1.0, actions.person_id.0, actions.post_id.0);
            }
            assert(self@.post_actions =~= want.post_actions);
            assert(self@ =~= want);
            lemma_reports_keep_referring(before, want);
        }
        Ok(())
    }

    /// Puts `actions` in place between their person and the person they
    /// concern, instead of what stood between the two, if anything.
    ///
    /// Fails with `ForeignKeyViolation`, and changes nothing, exactly when
    /// one of the two persons is not there.
    pub fn put_person_actions(&mut self, actions: PersonActions) -> (result: Result<
        (),
        ReportError,
    >)
        requires
            old(self)@.wf(),
        ensures
            final(self)@.wf(),
            match result {
                Ok(_) => old(self)@.persons.contains_key(actions.person_id) && old(
                    self,
                )@.persons.contains_key(actions.target_id) && final(self)@ == old(
                    self,
                )@.with_person_actions(actions),
                Err(e) => !(old(self)@.persons.contains_key(actions.person_id) && old(
                    self,
                )@.persons.contains_key(actions.target_id)) && e
                    == ReportError::ForeignKeyViolation && final(self)@ == old(self)@,
            },
    {
        if !self.persons.contains_key(&actions.person_id.0) || !self.persons.contains_key(
            &actions.target_id.0,
        ) {
            return Err(ReportError::ForeignKeyViolation);
        }
        let ghost before = self@;
        let key = make_edge_key(actions.person_id.0, actions.target_id.0);
        self.person_actions.insert(key, actions);
        proof {
            let want = before.with_person_actions(actions);
            assert forall|k: (PersonId, PersonId)| edge_key(k.0.0, k.1.0) == key implies k == (
                actions.person_id,
                actions.target_id,
            ) by {
                lemma_edge_key_injective(k.0.0, k.1.0, actions.person_id.0, actions.target_id.0);
            }
            assert(self@.person_actions =~= want.person_actions);
            assert(self@ =~= want);
            lemma_reports_keep_referring(before, want);
        }
        Ok(())
    }

    /// The position of the report with the identifier `id`, if there is one.
    pub fn find_report(&self, id: PostReportId) -> (found: Option<usize>)
        requires
            self@.wf(),
        ensures
            match found {
                Some(i) => self@.has_report(id) && i == self@.report_index(id) && i
                    < self@.reports.len() && self@.reports[i as int].id == id,
                None => !self@.has_report(id),
            },
    {
        let mut i: usize = 0;
        while i < self.reports.len()
            invariant
                i <= self.reports.len(),
                self@.wf(),
                self.reports@ == self@.reports,
                forall|j: int| 0 <= j < i ==> (#[trigger] self.reports@[j]).id != id,
            decreases self.reports.len() - i,
        {
            if self.reports[i].id == id {
                proof {
                    assert(self@.reports[i as int].id == id);
                    assert(self@.has_report(id));
                    let k = self@.report_index(id);
                    if k < i {
                        assert(self@.reports[k].id != self@.reports[i as int].id);
                    } else if k > i {
                        assert(self@.reports[i as int].id != self@.reports[k].id);
                    }
                }
                return Some(i);
            }
            i += 1;
        }
        None
    }

    /// Whether `creator` has already reported `post`.
    pub fn has_reported(&self, creator: PersonId, post: PostId) -> (found: bool)
        ensures
            found == self@.has_reported(creator, post),
    {
        let mut i: usize = 0;
        while i < self.reports.len()
            invariant
                i <= self.reports.len(),
                self.reports@ == self@.reports,
                forall|j: int|
                    0 <= j < i ==> !((#[trigger] self.reports@[j]).creator_id == creator
                        && self.reports@[j].post_id == post),
            decreases self.reports.len() - i,
        {
            if self.reports[i].creator_id == creator && self.reports[i].post_id == post {
                return true;
            }
            i += 1;
        }
        false
    }

    /// Puts `report` at its place among the reports.
    fn place_report(&mut self, report: PostReport)
        requires
            old(self)@.wf(),
            old(self)@.report_refers(report),
            !old(self)@.has_report(report.id),
            !old(self)@.has_reported(report.creator_id, report.post_id),
            report.resolved == report.resolver_id.is_some(),
            old(self)@.reports.len() < i32::MAX,
        ensures
            final(self)@.wf(),
            final(self)@ == old(self)@.with_report(report),
    {
        let ghost before = self@;
        let ghost placed = report;
        let now = report.published;
        let mut slot: usize = self.reports.len();
        assert(before.reports.take(slot as int) =~= before.reports);
        while slot > 0 && self.reports[slot - 1].published > now
            invariant
                slot <= self.reports.len(),
                self.reports@ == before.reports,
                filing_slot(before.reports, now) == filing_slot(
                    before.reports.take(slot as int),
                    now,
                ),
                forall|j: int|
                    slot <= j < before.reports.len() ==> (#[trigger] before.reports[j]).published
                        > now,
            decreases slot,
        {
            proof {
                let head = before.reports.take(slot as int);
                assert(head.last() == before.reports[slot - 1]);
                assert(head.drop_last() =~= before.reports.take(slot - 1));
            }
            slot -= 1;
        }
        proof {
            let head = before.reports.take(slot as int);
            if slot > 0 {
                assert(head.last() == before.reports[slot - 1]);
            }
            assert(filing_slot(before.reports, now) == slot);
        }
        if report.id.0 > self.last_report_id {
            self.last_report_id = report.id.0;
        }
        self.reports.insert(slot, report);
        proof {
            let want = before.with_report(placed);
            assert(self@ =~= want);
            let old_r = before.reports;
            let new_r = want.reports;
            let s = slot as int;
            assert(new_r.len() == old_r.len() + 1);
            assert forall|i: int| 0 <= i < new_r.len() implies #[trigger] new_r[i] == (if i < s {
                old_r[i]
            } else if i == s {
                placed
            } else {
                old_r[i - 1]
            }) by {}
            assert forall|i: int| 0 <= i < new_r.len() implies want.report_refers(
                #[trigger] new_r[i],
            ) by {
                if i < s {
                    assert(before.report_refers(old_r[i]));
                } else if i > s {
                    assert(before.report_refers(old_r[i - 1]));
                }
            }
            assert forall|i: int, j: int| 0 <= i <= j < new_r.len() implies (
            #[trigger] new_r[i]).published <= (#[trigger] new_r[j]).published by {
                if s > 0 {
                    assert(old_r[s - 1].published <= now);
                }
                if i < s && j < s {
                    assert(old_r[i].published <= old_r[j].published);
                } else if i < s && j == s {
                    assert(old_r[i].published <= old_r[s - 1].published);
                } else if i < s && j > s {
                    assert(old_r[i].published <= old_r[j - 1].published);
                } else if i == s && j > s {
                    assert(old_r[j - 1].published > now);
                } else if i > s {
                    assert(old_r[i - 1].published <= old_r[j - 1].published);
                }
            }
            assert forall|i: int, j: int| 0 <= i < j < new_r.len() implies (#[trigger] new_r[i]).id
                != (#[trigger] new_r[j]).id by {
                let a = if i < s { i } else { i - 1 };
                let b = if j < s { j } else { j - 1 };
                if i != s && j != s {
                    assert(old_r[a].id != old_r[b].id);
                } else if i == s {
                    assert(old_r[b].id != placed.id);
                } else {
                    assert(old_r[a].id != placed.id);
                }
            }
            assert forall|i: int, j: int| 0 <= i < j < new_r.len() implies !((
            #[trigger] new_r[i]).creator_id == (#[trigger] new_r[j]).creator_id && new_r[i].post_id
                == new_r[j].post_id) by {
                let a = if i < s { i } else { i - 1 };
                let b = if j < s { j } else { j - 1 };
                if i != s && j != s {
                    assert(!(old_r[a].creator_id == old_r[b].creator_id && old_r[a].post_id
                        == old_r[b].post_id));
                } else if i == s {
                    assert(!(old_r[b].creator_id == placed.creator_id && old_r[b].post_id
                        == placed.post_id));
                } else {
                    assert(!(old_r[a].creator_id == placed.creator_id && old_r[a].post_id
                        == placed.post_id));
                }
            }
            assert forall|i: int| 0 <= i < new_r.len() implies (#[trigger] new_r[i]).id.0
                <= want.last_report_id by {
                if i < s {
                    assert(old_r[i].id.0 <= before.last_report_id);
                } else if i > s {
                    assert(old_r[i - 1].id.0 <= before.last_report_id);
                }
            }
            assert forall|i: int| 0 <= i < new_r.len() implies (#[trigger] new_r[i]).resolved
                == new_r[i].resolver_id.is_some() by {
                if i < s {
                    assert(old_r[i].resolved == old_r[i].resolver_id.is_some());
                } else if i > s {
                    assert(old_r[i - 1].resolved == old_r[i - 1].resolver_id.is_some());
                }
            }
        }
    }

    /// Whether the post and the creator of `report` are there, and its
    /// resolver if it names one.
    fn refers(&self, report: &PostReport) -> (found: bool)
        ensures
            found == self@.report_refers(*report),
    {
        self.posts.contains_key(&report.post_id.0) && self.persons.contains_key(
            &report.creator_id.0,
        ) && match report.resolver_id {
            Some(resolver) => self.persons.contains_key(&resolver.0),
            None => true,
        }
    }

    /// Takes in a report as it is, with the identifier and the marks of
    /// resolution that it has, and puts it at its place in the order of
    /// filing.
    ///
    /// Fails, and changes nothing: with `ForeignKeyViolation` exactly when
    /// its post, its creator or the resolver it names is not there;
    /// otherwise with `UniqueViolation` exactly when a report has its
    /// identifier or its creator has reported its post before; otherwise with
    /// `CheckViolation` exactly when it is resolved without a resolver or
    /// names a resolver without being resolved; otherwise with
    /// `StoreUnavailable` exactly when the store is full.
    pub fn insert_report(&mut self, report: PostReport) -> (result: Result<(), ReportError>)
        requires
            old(self)@.wf(),
        ensures
            final(self)@.wf(),
            match result {
                Ok(_) => {
                    &&& old(self)@.report_refers(report)
                    &&& !old(self)@.has_report(report.id)
                    &&& !old(self)@.has_reported(report.creator_id, report.post_id)
                    &&& report.resolved == report.resolver_id.is_some()
                    &&& old(self)@.reports.len() < i32::MAX
                    &&& final(self)@ == old(self)@.with_report(report)
                },
                Err(e) => {
                    &&& final(self)@ == old(self)@
                    &&& if !old(self)@.report_refers(report) {
                        e == ReportError::ForeignKeyViolation
                    } else if old(self)@.has_report(report.id) || old(self)@.has_reported(
                        report.creator_id,
                        report.post_id,
                    ) {
                        e == ReportError::UniqueViolation
                    } else if report.resolved != report.resolver_id.is_some() {
                        e == ReportError::CheckViolation
                    } else {
                        e == ReportError::StoreUnavailable && old(self)@.reports.len() >= i32::MAX
                    }
                },
            },
    {
        if !self.refers(&report) {
            return Err(ReportError::ForeignKeyViolation);
        }
        if self.find_report(report.id).is_some() || self.has_reported(
            report.creator_id,
            report.post_id,
        ) {
            return Err(ReportError::UniqueViolation);
        }
        if report.resolved != report.resolver_id.is_some() {
            return Err(ReportError::CheckViolation);
        }
        if self.reports.len() >= 0x7fff_ffff {
            return Err(ReportError::StoreUnavailable);
        }
        self.place_report(report);
        Ok(())
    }

    /// Files a report at the instant `now` and returns it.
    ///
    /// The report gets the identifier after the highest so far and is
    /// unresolved. Fails, and changes nothing: with `ForeignKeyViolation`
    /// exactly when the post or the creator is not there; otherwise with
    /// `UniqueViolation` exactly when the creator has reported the post
    /// before; otherwise with `StoreUnavailable` exactly when the identifiers
    /// are used up or the store is full.
    pub fn report(&mut self, form: &PostReportForm, now: i64) -> (result: Result<
        PostReport,
        ReportError,
    >)
        requires
            old(self)@.wf(),
        ensures
            final(self)@.wf(),
            match result {
                Ok(filed) => {
                    &&& old(self)@.posts.contains_key(form.post_id)
                    &&& old(self)@.persons.contains_key(form.creator_id)
                    &&& !old(self)@.has_reported(form.creator_id, form.post_id)
                    &&& old(self)@.last_report_id < i32::MAX
                    &&& old(self)@.reports.len() < i32::MAX
                    &&& filed == filed_report(
                        PostReportId(old(self)@.next_report_id() as i32),
                        *form,
                        now,
                    )
                    &&& final(self)@ == old(self)@.with_report(filed)
                },
                Err(e) => {
                    &&& final(self)@ == old(self)@
                    &&& if !(old(self)@.posts.contains_key(form.post_id) && old(
                        self,
                    )@.persons.contains_key(form.creator_id)) {
                        e == ReportError::ForeignKeyViolation
                    } else if old(self)@.has_reported(form.creator_id, form.post_id) {
                        e == ReportError::UniqueViolation
                    } else {
                        e == ReportError::StoreUnavailable && (old(self)@.last_report_id
                            >= i32::MAX || old(self)@.reports.len() >= i32::MAX)
                    }
                },
            },
    {
        if !self.posts.contains_key(&form.post_id.0) || !self.persons.contains_key(
            &form.creator_id.0,
        ) {
            return Err(ReportError::ForeignKeyViolation);
        }
        if self.has_reported(form.creator_id, form.post_id) {
            return Err(ReportError::UniqueViolation);
        }
        if self.last_report_id == 0x7fff_ffff || self.reports.len() >= 0x7fff_ffff {
            return Err(ReportError::StoreUnavailable);
        }
        let filed = PostReport {
            id: PostReportId(self.last_report_id + 1),
            creator_id: form.creator_id,
            post_id: form.post_id,
            original_post_name: form.original_post_name.clone(),
            original_post_url: clone_text(&form.original_post_url),
            original_post_body: clone_text(&form.original_post_body),
            reason: form.reason.clone(),
            resolved: false,
            resolver_id: None,
            published: now,
            updated: None,
        };
        proof {
            if self@.has_report(filed.id) {
                let i = self@.report_index(filed.id);
                assert(self@.reports[i].id.0 <= self@.last_report_id);
            }
        }
        let copy = filed.clone();
        self.place_report(filed);
        Ok(copy)
    }

    /// Replaces the report at position `i` by `report`, which differs from
    /// it in nothing but the marks of resolution.
    fn replace_report(&mut self, i: usize, report: PostReport)
        requires
            old(self)@.wf(),
            i < old(self)@.reports.len(),
            report.id == old(self)@.reports[i as int].id,
            report.creator_id == old(self)@.reports[i as int].creator_id,
            report.post_id == old(self)@.reports[i as int].post_id,
            report.published == old(self)@.reports[i as int].published,
            report.resolved == report.resolver_id.is_some(),
            report.resolver_id matches Some(resolver) ==> old(self)@.persons.contains_key(resolver),
        ensures
            final(self)@.wf(),
            final(self)@ == old(self)@.with_report_at(i as int, report),
    {
        let ghost before = self@;
        self.reports.set(i, report);
        proof {
            let want = before.with_report_at(i as int, report);
            assert(self@ =~= want);
            let old_r = before.reports;
            let new_r = want.reports;
            assert forall|k: int| 0 <= k < new_r.len() implies want.report_refers(
                #[trigger] new_r[k],
            ) by {
                assert(before.report_refers(old_r[k]));
            }
            assert forall|a: int, b: int| 0 <= a <= b < new_r.len() implies (
            #[trigger] new_r[a]).published <= (#[trigger] new_r[b]).published by {
                assert(old_r[a].published <= old_r[b].published);
            }
            assert forall|a: int, b: int| 0 <= a < b < new_r.len() implies (#[trigger] new_r[a]).id
                != (#[trigger] new_r[b]).id by {
                assert(old_r[a].id != old_r[b].id);
            }
            assert forall|a: int, b: int| 0 <= a < b < new_r.len() implies !((
            #[trigger] new_r[a]).creator_id == (#[trigger] new_r[b]).creator_id && new_r[a].post_id
                == new_r[b].post_id) by {
                assert(!(old_r[a].creator_id == old_r[b].creator_id && old_r[a].post_id
                    == old_r[b].post_id));
            }
            assert forall|k: int| 0 <= k < new_r.len() implies (#[trigger] new_r[k]).id.0
                <= want.last_report_id by {
                assert(old_r[k].id.0 <= before.last_report_id);
            }
            assert forall|k: int| 0 <= k < new_r.len() implies (#[trigger] new_r[k]).resolved
                == new_r[k].resolver_id.is_some() by {
                assert(old_r[k].resolved == old_r[k].resolver_id.is_some());
            }
        }
    }

    /// Marks the report `id` as resolved by `resolver` at the instant `now`.
    ///
    /// Fails, and changes nothing: with `NotFound` exactly when no report has
    /// that identifier; otherwise with `ForeignKeyViolation` exactly when the
    /// resolver is not there.
    pub fn resolve(&mut self, id: PostReportId, resolver: PersonId, now: i64) -> (result: Result<
        (),
        ReportError,
    >)
        requires
            old(self)@.wf(),
        ensures
            final(self)@.wf(),
            match result {
                Ok(_) => {
                    let i = old(self)@.report_index(id);
                    &&& old(self)@.has_report(id)
                    &&& old(self)@.persons.contains_key(resolver)
                    &&& final(self)@ == old(self)@.with_report_at(
                        i,
                        resolved_report(old(self)@.reports[i], resolver, now),
                    )
                },
                Err(e) => final(self)@ == old(self)@ && if !old(self)@.has_report(id) {
                    e == ReportError::NotFound
                } else {
                    e == ReportError::ForeignKeyViolation && !old(self)@.persons.contains_key(
                        resolver,
                    )
                },
            },
    {
        let i = match self.find_report(id) {
            Some(i) => i,
            None => {
                return Err(ReportError::NotFound);
            },
        };
        if !self.persons.contains_key(&resolver.0) {
            return Err(ReportError::ForeignKeyViolation);
        }
        let mut changed = self.reports[i].clone();
        changed.resolved = true;
        changed.resolver_id = Some(resolver);
        changed.updated = Some(now);
        self.replace_report(i, changed);
        Ok(())
    }

    /// Marks the report `id` as open again at the instant `now`: it is
    /// unresolved and names no resolver.
    ///
    /// Fails with `NotFound`, and changes nothing, exactly when no report has
    /// that identifier.
    pub fn unresolve(&mut self, id: PostReportId, now: i64) -> (result: Result<(), ReportError>)
        requires
            old(self)@.wf(),
        ensures
            final(self)@.wf(),
            match result {
                Ok(_) => {
                    let i = old(self)@.report_index(id);
                    &&& old(self)@.has_report(id)
                    &&& final(self)@ == old(self)@.with_report_at(
                        i,
                        reopened_report(old(self)@.reports[i], now),
                    )
                },
                Err(e) => final(self)@ == old(self)@ && !old(self)@.has_report(id) && e
                    == ReportError::NotFound,
            },
    {
        let i = match self.find_report(id) {
            Some(i) => i,
            None => {
                return Err(ReportError::NotFound);
            },
        };
        let mut changed = self.reports[i].clone();
        changed.resolved = false;
        changed.resolver_id = None;
        changed.updated = Some(now);
        self.replace_report(i, changed);
        Ok(())
    }

    /// Whether an unresolved report on `post` is there.
    pub fn has_open_report(&self, post: PostId) -> (found: bool)
        ensures
            found == self@.has_open_report(post),
    {
        let mut i: usize = 0;
        while i < self.reports.len()
            invariant
                i <= self.reports.len(),
                self.reports@ == self@.reports,
                forall|j: int|
                    0 <= j < i ==> !((#[trigger] self.reports@[j]).post_id == post
                        && !self.reports@[j].resolved),
            decreases self.reports.len() - i,
        {
            if self.reports[i].post_id == post && !self.reports[i].resolved {
                return true;
            }
            i += 1;
        }
        false
    }

    /// Resolves every unresolved report on `post` at once, each by `resolver`
    /// at the instant `now`. Reports that were resolved before keep their
    /// resolver; where no report on the post is unresolved, nothing changes.
    ///
    /// Fails with `ForeignKeyViolation`, and changes nothing, exactly when
    /// there is a report to resolve and the resolver is not there.
    pub fn resolve_all_for_object(&mut self, post: PostId, resolver: PersonId, now: i64) -> (result:
        Result<(), ReportError>)
        requires
            old(self)@.wf(),
        ensures
            final(self)@.wf(),
            match result {
                Ok(_) => !(old(self)@.has_open_report(post) && !old(self)@.persons.contains_key(
                    resolver,
                )) && final(self)@ == old(self)@.resolve_all(post, resolver, now),
                Err(e) => old(self)@.has_open_report(post) && !old(self)@.persons.contains_key(
                    resolver,
                ) && e == ReportError::ForeignKeyViolation && final(self)@ == old(self)@,
            },
    {
        let ghost before = self@;
        let ghost change = |r: PostReport|
            if r.post_id == post && !r.resolved {
                resolved_report(r, resolver, now)
            } else {
                r
            };
        if !self.has_open_report(post) {
            proof {
                let want = before.resolve_all(post, resolver, now);
                assert forall|k: int| 0 <= k < before.reports.len() implies change(
                    #[trigger] before.reports[k],
                ) == before.reports[k] by {}
                assert(want.reports =~= before.reports);
                assert(want =~= before);
            }
            return Ok(());
        }
        if !self.persons.contains_key(&resolver.0) {
            return Err(ReportError::ForeignKeyViolation);
        }
        let mut i: usize = 0;
        while i < self.reports.len()
            invariant
                i <= self.reports.len(),
                self@.wf(),
                self@.persons.contains_key(resolver),
                self@ == (StoreState { reports: self@.reports, ..before }),
                self@.reports.len() == before.reports.len(),
                forall|k: int| 0 <= k < i ==> #[trigger] self@.reports[k] == change(before.reports[k]),
                forall|k: int|
                    i <= k < before.reports.len() ==> #[trigger] self@.reports[k]
                        == before.reports[k],
                change == (|r: PostReport|
                    if r.post_id == post && !r.resolved {
                        resolved_report(r, resolver, now)
                    } else {
                        r
                    }),
            decreases self.reports.len() - i,
        {
            if self.reports[i].post_id == post && !self.reports[i].resolved {
                let mut changed = self.reports[i].clone();
                changed.resolved = true;
                changed.resolver_id = Some(resolver);
                changed.updated = Some(now);
                self.replace_report(i, changed);
                assert(self@ =~= (StoreState { reports: self@.reports, ..before }));
            }
            i += 1;
        }
        proof {
            let want = before.resolve_all(post, resolver, now);
            assert(self@.reports =~= want.reports);
            assert(self@ =~= want);
        }
        Ok(())
    }
}

} // verus!
