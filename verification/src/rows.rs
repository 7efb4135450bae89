//! The records that the report store keeps, one type per kind of entity or
//! relationship.
//!
//! Points in time are whole numbers on the store's clock; a later instant is
//! a larger number.

use vstd::prelude::*;
use crate::ids::{CommunityId, PersonId, PostId, PostReportId};

verus! {

/// A person: someone who can file a report, author a post or resolve a report.
#[derive(Debug, PartialEq, Eq)]
pub struct Person {
    pub id: PersonId,
    pub name: String,
}

impl Clone for Person {
    fn clone(&self) -> (copy: Self)
        ensures
            copy == *self,
    {
        Person { id: self.id, name: self.name.clone() }
    }
}

/// The local account of a person, which carries the site-admin flag.
#[derive(Clone, Copy, Debug, PartialEq, Eq)]
pub struct LocalUser {
    pub person_id: PersonId,
    pub admin: bool,
}

/// A community, the place a post belongs to.
#[derive(Debug, PartialEq, Eq)]
pub struct Community {
    pub id: CommunityId,
    pub name: String,
    pub title: String,
}

impl Clone for Community {
    fn clone(&self) -> (copy: Self)
        ensures
            copy == *self,
    {
        Community { id: self.id, name: self.name.clone(), title: self.title.clone() }
    }
}

/// Copies an optional text.
pub fn clone_text(text: &Option<String>) -> (copy: Option<String>)
    ensures
        copy == *text,
{
    match text {
        Some(t) => Some(t.clone()),
        None => None,
    }
}

/// A post in its current state.
#[derive(Debug, PartialEq, Eq)]
pub struct Post {
    pub id: PostId,
    pub name: String,
    pub url: Option<String>,
    pub body: Option<String>,
    pub creator_id: PersonId,
    pub community_id: CommunityId,
    pub published: i64,
}

impl Clone for Post {
    fn clone(&self) -> (copy: Self)
        ensures
            copy == *self,
    {
        Post {
            id: self.id,
            name: self.name.clone(),
            url: clone_text(&self.url),
            body: clone_text(&self.body),
            creator_id: self.creator_id,
            community_id: self.community_id,
            published: self.published,
        }
    }
}

/// The running totals of a post.
#[derive(Clone, Copy, Debug, PartialEq, Eq)]
pub struct PostAggregates {
    pub post_id: PostId,
    pub comments: i64,
    pub score: i64,
    pub upvotes: i64,
    pub downvotes: i64,
}

/// One person's complaint about one post.
///
/// The name, url and body are those the post had when the report was filed;
/// they stay as they were, whatever becomes of the post.
#[derive(Debug, PartialEq, Eq)]
pub struct PostReport {
    pub id: PostReportId,
    pub creator_id: PersonId,
    pub post_id: PostId,
    pub original_post_name: String,
    pub original_post_url: Option<String>,
    pub original_post_body: Option<String>,
    pub reason: String,
    pub resolved: bool,
    pub resolver_id: Option<PersonId>,
    pub published: i64,
    pub updated: Option<i64>,
}

impl Clone for PostReport {
    fn clone(&self) -> (copy: Self)
        ensures
            copy == *self,
    {
        PostReport {
            id: self.id,
            creator_id: self.creator_id,
            post_id: self.post_id,
            original_post_name: self.original_post_name.clone(),
            original_post_url: clone_text(&self.original_post_url),
            original_post_body: clone_text(&self.original_post_body),
            reason: self.reason.clone(),
            resolved: self.resolved,
            resolver_id: self.resolver_id,
            published: self.published,
            updated: self.updated,
        }
    }
}

/// What a person hands in to file a report.
#[derive(Debug, PartialEq, Eq)]
pub struct PostReportForm {
    pub creator_id: PersonId,
    pub post_id: PostId,
    pub original_post_name: String,
    pub original_post_url: Option<String>,
    pub original_post_body: Option<String>,
    pub reason: String,
}

/// How far a request to follow a community has come.
#[derive(Clone, Copy, Debug, PartialEq, Eq, Structural)]
pub enum CommunityFollowerState {
    Accepted,
    Pending,
}

/// Whether a viewer follows a community.
#[derive(Clone, Copy, Debug, PartialEq, Eq, Structural)]
pub enum SubscribedType {
    Subscribed,
    NotSubscribed,
    Pending,
}

/// What stands between one person and one community. Each field that is
/// present holds the instant at which it came about.
#[derive(Clone, Copy, Debug, PartialEq, Eq)]
pub struct CommunityActions {
    pub person_id: PersonId,
    pub community_id: CommunityId,
    pub followed: Option<i64>,
    pub follow_state: Option<CommunityFollowerState>,
    pub became_moderator: Option<i64>,
    pub received_ban: Option<i64>,
}

/// What one person has done with one post.
#[derive(Clone, Copy, Debug, PartialEq, Eq)]
pub struct PostActions {
    pub person_id: PersonId,
    pub post_id: PostId,
    pub read: Option<i64>,
    pub read_comments_amount: Option<i64>,
    pub saved: Option<i64>,
    pub like_score: Option<i16>,
    pub hidden: Option<i64>,
}

/// What one person has done about another.
#[derive(Clone, Copy, Debug, PartialEq, Eq)]
pub struct PersonActions {
    pub person_id: PersonId,
    pub target_id: PersonId,
    pub blocked: Option<i64>,
}

/// The viewer on whose behalf reports are listed.
#[derive(Debug, PartialEq, Eq)]
pub struct LocalUserView {
    pub local_user: LocalUser,
    pub person: Person,
}

} // verus!
