use report_views::{
    Community, CommunityActions, CommunityFollowerState, CommunityId, LocalUser, LocalUserView,
    Person, PersonActions, PersonId, Post, PostActions, PostAggregates, PostId, PostReportForm,
    PostReportId, PostReportQuery, PostReportView, ReportError, ReportStore, SubscribedType,
};

const ADMIN: i32 = 1;
const MOD_A: i32 = 2;
const AUTHOR: i32 = 3;

fn viewer(id: i32, admin: bool) -> LocalUserView {
    LocalUserView {
        local_user: LocalUser { person_id: PersonId(id), admin },
        person: Person { id: PersonId(id), name: format!("p{}", id) },
    }
}

fn edge(person: i32, community: i32) -> CommunityActions {
    CommunityActions {
        person_id: PersonId(person),
        community_id: CommunityId(community),
        followed: None,
        follow_state: None,
        became_moderator: None,
        received_ban: None,
    }
}

fn form(creator: i32, post: i32, reason: &str) -> PostReportForm {
    PostReportForm {
        creator_id: PersonId(creator),
        post_id: PostId(post),
        original_post_name: "orig".to_string(),
        original_post_url: None,
        original_post_body: None,
        reason: reason.to_string(),
    }
}

/// Communities 1 (moderated by MOD_A) and 2 (moderated by nobody), posts 11
/// and 12 in community 1 and 21 in community 2, all by AUTHOR; persons 1..=20.
fn two_communities() -> ReportStore {
    let mut store = ReportStore::new();
    for id in 1..=20 {
        store.insert_person(Person { id: PersonId(id), name: format!("p{}", id) }).unwrap();
    }
    for id in [1, 2] {
        store
            .insert_community(Community {
                id: CommunityId(id),
                name: format!("c{}", id),
                title: format!("C{}", id),
            })
            .unwrap();
    }
    for (id, community) in [(11, 1), (12, 1), (21, 2)] {
        store
            .insert_post(Post {
                id: PostId(id),
                name: format!("post {}", id),
                url: None,
                body: None,
                creator_id: PersonId(AUTHOR),
                community_id: CommunityId(community),
                published: 0,
            })
            .unwrap();
    }
    store
        .put_community_actions(CommunityActions { became_moderator: Some(1), ..edge(MOD_A, 1) })
        .unwrap();
    store
}

fn reasons(views: &[PostReportView]) -> Vec<String> {
    views.iter().map(|v| v.post_report.reason.clone()).collect()
}

#[test]
fn read_unknown_report_is_not_found() {
    let store = two_communities();
    assert_eq!(
        PostReportView::read(&store, PostReportId(1), PersonId(MOD_A)),
        Err(ReportError::NotFound)
    );
}

#[test]
fn read_does_not_scope_by_viewer() {
    let mut store = two_communities();
    let filed = store.report(&form(5, 21, "in community 2"), 1).unwrap();
    let view = PostReportView::read(&store, filed.id, PersonId(MOD_A)).unwrap();
    assert_eq!(view.community.id, CommunityId(2));
    assert_eq!(view.post.id, PostId(21));
}

#[test]
fn fresh_report_view_is_blank() {
    let mut store = two_communities();
    let filed = store.report(&form(5, 11, "why"), 7).unwrap();
    let view = PostReportView::read(&store, filed.id, PersonId(6)).unwrap();
    assert_eq!(view.post_report, filed);
    assert_eq!(view.post.name, "post 11");
    assert_eq!(view.community.name, "c1");
    assert_eq!(view.creator.id, PersonId(5));
    assert_eq!(view.post_creator.id, PersonId(AUTHOR));
    assert!(!view.creator_banned_from_community);
    assert!(!view.creator_is_moderator);
    assert!(!view.creator_is_admin);
    assert_eq!(view.subscribed, SubscribedType::NotSubscribed);
    assert!(!view.saved);
    assert!(!view.read);
    assert!(!view.hidden);
    assert!(!view.creator_blocked);
    assert_eq!(view.my_vote, None);
    assert_eq!(view.unread_comments, 0);
    assert_eq!(
        view.counts,
        PostAggregates { post_id: PostId(11), comments: 0, score: 0, upvotes: 0, downvotes: 0 }
    );
    assert_eq!(view.resolver, None);
}

#[test]
fn view_reflects_relationships_of_author_and_viewer() {
    let mut store = two_communities();
    let me = 6;
    store
        .put_community_actions(CommunityActions {
            became_moderator: Some(3),
            received_ban: Some(4),
            ..edge(AUTHOR, 1)
        })
        .unwrap();
    store.put_local_user(LocalUser { person_id: PersonId(AUTHOR), admin: true }).unwrap();
    store
        .put_community_actions(CommunityActions {
            followed: Some(1),
            follow_state: Some(CommunityFollowerState::Pending),
            ..edge(me, 1)
        })
        .unwrap();
    store
        .put_post_actions(PostActions {
            person_id: PersonId(me),
            post_id: PostId(11),
            read: Some(1),
            read_comments_amount: Some(4),
            saved: Some(2),
            like_score: Some(-1),
            hidden: Some(3),
        })
        .unwrap();
    store
        .put_person_actions(PersonActions {
            person_id: PersonId(me),
            target_id: PersonId(AUTHOR),
            blocked: Some(9),
        })
        .unwrap();
    store
        .put_post_aggregates(PostAggregates {
            post_id: PostId(11),
            comments: 10,
            score: 5,
            upvotes: 6,
            downvotes: 1,
        })
        .unwrap();
    let filed = store.report(&form(5, 11, "why"), 7).unwrap();
    store.resolve(filed.id, PersonId(MOD_A), 8).unwrap();

    let view = PostReportView::read(&store, filed.id, PersonId(me)).unwrap();
    assert!(view.creator_banned_from_community);
    assert!(view.creator_is_moderator);
    assert!(view.creator_is_admin);
    assert_eq!(view.subscribed, SubscribedType::Pending);
    assert!(view.saved && view.read && view.hidden && view.creator_blocked);
    assert_eq!(view.my_vote, Some(-1));
    assert_eq!(view.unread_comments, 6);
    assert_eq!(view.counts.comments, 10);
    assert_eq!(view.resolver.as_ref().map(|p| p.id), Some(PersonId(MOD_A)));
    assert!(view.post_report.resolved);

    // someone else sees the same author, but none of my marks
    let other = PostReportView::read(&store, filed.id, PersonId(7)).unwrap();
    assert!(other.creator_banned_from_community && other.creator_is_moderator);
    assert!(other.creator_is_admin);
    assert_eq!(other.subscribed, SubscribedType::NotSubscribed);
    assert!(!other.saved && !other.read && !other.hidden && !other.creator_blocked);
    assert_eq!(other.my_vote, None);
    assert_eq!(other.unread_comments, 10);
}

#[test]
fn subscribed_follows_follow_state() {
    let mut store = two_communities();
    let filed = store.report(&form(5, 11, "why"), 7).unwrap();
    store
        .put_community_actions(CommunityActions {
            follow_state: Some(CommunityFollowerState::Accepted),
            ..edge(6, 1)
        })
        .unwrap();
    store.put_community_actions(edge(7, 1)).unwrap();
    let accepted = PostReportView::read(&store, filed.id, PersonId(6)).unwrap();
    assert_eq!(accepted.subscribed, SubscribedType::Subscribed);
    let none = PostReportView::read(&store, filed.id, PersonId(7)).unwrap();
    assert_eq!(none.subscribed, SubscribedType::NotSubscribed);
}

#[test]
fn admin_flag_needs_admin_account() {
    let mut store = two_communities();
    store.put_local_user(LocalUser { person_id: PersonId(AUTHOR), admin: false }).unwrap();
    let filed = store.report(&form(5, 11, "why"), 7).unwrap();
    let view = PostReportView::read(&store, filed.id, PersonId(6)).unwrap();
    assert!(!view.creator_is_admin);
}

#[test]
fn unresolved_only_lists_oldest_first_and_all_lists_newest_first() {
    let mut store = two_communities();
    store.report(&form(5, 11, "newer"), 20).unwrap();
    store.report(&form(6, 11, "older"), 10).unwrap();
    let me = viewer(MOD_A, false);
    let queue =
        PostReportQuery { unresolved_only: true, ..Default::default() }.list(&store, &me).unwrap();
    assert_eq!(reasons(&queue), vec!["older", "newer"]);
    let history = PostReportQuery::default().list(&store, &me).unwrap();
    assert_eq!(reasons(&history), vec!["newer", "older"]);
}

#[test]
fn moderator_sees_only_own_communities_and_admin_sees_all() {
    let mut store = two_communities();
    store.report(&form(5, 11, "A1"), 1).unwrap();
    store.report(&form(5, 21, "B1"), 2).unwrap();
    store.report(&form(6, 12, "A2"), 3).unwrap();

    let moderator = viewer(MOD_A, false);
    let seen = PostReportQuery::default().list(&store, &moderator).unwrap();
    assert_eq!(reasons(&seen), vec!["A2", "A1"]);
    assert!(seen.iter().all(|v| v.community.id == CommunityId(1)));
    let seen_b = PostReportQuery { community_id: Some(CommunityId(2)), ..Default::default() }
        .list(&store, &moderator)
        .unwrap();
    assert!(seen_b.is_empty());

    let admin = viewer(ADMIN, true);
    let all = PostReportQuery::default().list(&store, &admin).unwrap();
    assert_eq!(reasons(&all), vec!["A2", "B1", "A1"]);

    let nobody = viewer(9, false);
    assert!(PostReportQuery::default().list(&store, &nobody).unwrap().is_empty());

    assert_eq!(PostReportView::get_report_count(&store, PersonId(MOD_A), false, None), 2);
    assert_eq!(PostReportView::get_report_count(&store, PersonId(ADMIN), true, None), 3);
    assert_eq!(PostReportView::get_report_count(&store, PersonId(9), false, None), 0);
}

#[test]
fn membership_without_moderator_status_gives_no_sight() {
    let mut store = two_communities();
    store.report(&form(5, 21, "B1"), 2).unwrap();
    store
        .put_community_actions(CommunityActions {
            followed: Some(1),
            follow_state: Some(CommunityFollowerState::Accepted),
            ..edge(MOD_A, 2)
        })
        .unwrap();
    let moderator = viewer(MOD_A, false);
    assert!(PostReportQuery::default().list(&store, &moderator).unwrap().is_empty());
    assert_eq!(PostReportView::get_report_count(&store, PersonId(MOD_A), false, None), 0);
}

#[test]
fn filters_by_community_and_post() {
    let mut store = two_communities();
    store.report(&form(5, 11, "p11"), 1).unwrap();
    store.report(&form(5, 12, "p12"), 2).unwrap();
    store.report(&form(5, 21, "p21"), 3).unwrap();
    let admin = viewer(ADMIN, true);
    let in_one = PostReportQuery { community_id: Some(CommunityId(1)), ..Default::default() }
        .list(&store, &admin)
        .unwrap();
    assert_eq!(reasons(&in_one), vec!["p12", "p11"]);
    let on_12 = PostReportQuery { post_id: Some(PostId(12)), ..Default::default() }
        .list(&store, &admin)
        .unwrap();
    assert_eq!(reasons(&on_12), vec!["p12"]);
    let mismatch = PostReportQuery {
        community_id: Some(CommunityId(2)),
        post_id: Some(PostId(12)),
        ..Default::default()
    }
    .list(&store, &admin)
    .unwrap();
    assert!(mismatch.is_empty());
    assert_eq!(
        PostReportView::get_report_count(&store, PersonId(ADMIN), true, Some(CommunityId(1))),
        2
    );
    assert_eq!(
        PostReportView::get_report_count(&store, PersonId(ADMIN), true, Some(CommunityId(2))),
        1
    );
    assert_eq!(
        PostReportView::get_report_count(&store, PersonId(ADMIN), true, Some(CommunityId(3))),
        0
    );
}

#[test]
fn pages_split_the_listing() {
    let mut store = two_communities();
    for creator in 4..=10 {
        store.report(&form(creator, 11, &format!("r{}", creator)), creator as i64).unwrap();
    }
    let admin = viewer(ADMIN, true);
    let page = |page: i64, limit: i64, unresolved_only: bool| {
        let query =
            PostReportQuery { page: Some(page), limit: Some(limit), unresolved_only, ..Default::default() };
        reasons(&query.list(&store, &admin).unwrap())
    };
    assert_eq!(page(1, 3, true), vec!["r4", "r5", "r6"]);
    assert_eq!(page(2, 3, true), vec!["r7", "r8", "r9"]);
    assert_eq!(page(3, 3, true), vec!["r10"]);
    assert!(page(4, 3, true).is_empty());
    assert_eq!(page(0, 3, true), vec!["r4", "r5", "r6"]);
    assert_eq!(page(1, 3, false), vec!["r10", "r9", "r8"]);
    assert_eq!(page(3, 3, false), vec!["r4"]);
    assert_eq!(page(1, 50, true).len(), 7);
}

#[test]
fn invalid_pagination_is_an_error() {
    let store = two_communities();
    let admin = viewer(ADMIN, true);
    let too_big = PostReportQuery { limit: Some(51), ..Default::default() };
    assert_eq!(too_big.list(&store, &admin), Err(ReportError::InvalidPagination));
    let zero = PostReportQuery { limit: Some(0), ..Default::default() };
    assert_eq!(zero.list(&store, &admin), Err(ReportError::InvalidPagination));
    let far = PostReportQuery { page: Some(i64::MAX), limit: Some(2), ..Default::default() };
    assert_eq!(far.list(&store, &admin), Err(ReportError::InvalidPagination));
}

#[test]
fn count_is_length_of_unresolved_listing() {
    let mut store = two_communities();
    for creator in 4..=9 {
        store.report(&form(creator, 11, "a"), creator as i64).unwrap();
    }
    for creator in 4..=6 {
        store.report(&form(creator, 21, "b"), 20 + creator as i64).unwrap();
    }
    store.resolve(PostReportId(2), PersonId(MOD_A), 50).unwrap();
    store.resolve(PostReportId(8), PersonId(ADMIN), 51).unwrap();
    for (who, admin) in [(MOD_A, false), (ADMIN, true), (9, false)] {
        for community in [None, Some(CommunityId(1)), Some(CommunityId(2))] {
            let count = PostReportView::get_report_count(&store, PersonId(who), admin, community);
            let listed = PostReportQuery {
                community_id: community,
                unresolved_only: true,
                limit: Some(50),
                ..Default::default()
            }
            .list(&store, &viewer(who, admin))
            .unwrap();
            assert_eq!(count, listed.len() as i64);
        }
    }
    assert_eq!(PostReportView::get_report_count(&store, PersonId(MOD_A), false, None), 5);
    assert_eq!(PostReportView::get_report_count(&store, PersonId(ADMIN), true, None), 7);
}

#[test]
fn count_exceeds_a_full_page() {
    let mut store = two_communities();
    for creator in 1..=11 {
        store.report(&form(creator, 11, "a"), creator as i64).unwrap();
    }
    let admin = viewer(ADMIN, true);
    let first_page =
        PostReportQuery { unresolved_only: true, ..Default::default() }.list(&store, &admin).unwrap();
    assert_eq!(first_page.len(), 10);
    assert_eq!(PostReportView::get_report_count(&store, PersonId(ADMIN), true, None), 11);
}

#[test]
fn default_query_asks_for_everything() {
    let query = PostReportQuery::default();
    assert_eq!(query.community_id, None);
    assert_eq!(query.post_id, None);
    assert_eq!(query.page, None);
    assert_eq!(query.limit, None);
    assert!(!query.unresolved_only);
}

#[test]
fn assemble_is_the_view_that_read_returns() {
    let mut store = two_communities();
    let filed = store.report(&form(5, 11, "why"), 7).unwrap();
    let assembled = PostReportView::assemble(&store, &filed, PersonId(6)).unwrap();
    let read = PostReportView::read(&store, filed.id, PersonId(6)).unwrap();
    assert_eq!(assembled, read);
    let mut elsewhere = filed.clone();
    elsewhere.post_id = PostId(999);
    assert_eq!(PostReportView::assemble(&store, &elsewhere, PersonId(6)), None);
}
