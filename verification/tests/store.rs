use report_views::ids::make_edge_key;
use report_views::{
    Community, CommunityActions, CommunityId, LocalUser, Person, PersonActions, PersonId, Post,
    PostActions, PostAggregates, PostId, PostReport, PostReportForm, PostReportId, ReportError,
    ReportStore,
};

fn seeded() -> ReportStore {
    let mut store = ReportStore::new();
    for (id, name) in [(1, "ann"), (2, "bob"), (3, "cyd")] {
        store.insert_person(Person { id: PersonId(id), name: name.to_string() }).unwrap();
    }
    store
        .insert_community(Community {
            id: CommunityId(10),
            name: "main".to_string(),
            title: "Main".to_string(),
        })
        .unwrap();
    store.insert_post(post(100, 1, 10)).unwrap();
    store
}

fn post(id: i32, creator: i32, community: i32) -> Post {
    Post {
        id: PostId(id),
        name: format!("post {}", id),
        url: None,
        body: Some("body".to_string()),
        creator_id: PersonId(creator),
        community_id: CommunityId(community),
        published: 0,
    }
}

fn form(creator: i32, post: i32, reason: &str) -> PostReportForm {
    PostReportForm {
        creator_id: PersonId(creator),
        post_id: PostId(post),
        original_post_name: "snapshot".to_string(),
        original_post_url: Some("https://example.test/x".to_string()),
        original_post_body: None,
        reason: reason.to_string(),
    }
}

#[test]
fn edge_keys_are_distinct_and_ordered_by_halves() {
    assert_eq!(make_edge_key(i32::MIN, i32::MIN), 0);
    assert_eq!(make_edge_key(i32::MAX, i32::MAX), u64::MAX);
    assert_eq!(make_edge_key(0, 0), 0x8000_0000_8000_0000);
    assert_eq!(make_edge_key(1, 2), 0x8000_0001_8000_0002);
    assert_ne!(make_edge_key(1, 2), make_edge_key(2, 1));
}

#[test]
fn new_store_is_empty() {
    let store = ReportStore::new();
    assert!(store.reports().is_empty());
    assert!(store.person(PersonId(1)).is_none());
    assert!(store.post(PostId(1)).is_none());
    assert!(store.community(CommunityId(1)).is_none());
    assert_eq!(store.find_report(PostReportId(1)), None);
}

#[test]
fn insert_person_twice_is_unique_violation() {
    let mut store = seeded();
    let again = Person { id: PersonId(1), name: "other".to_string() };
    assert_eq!(store.insert_person(again), Err(ReportError::UniqueViolation));
    assert_eq!(store.person(PersonId(1)).unwrap().name, "ann");
}

#[test]
fn insert_community_twice_is_unique_violation() {
    let mut store = seeded();
    let again = Community { id: CommunityId(10), name: "x".to_string(), title: "X".to_string() };
    assert_eq!(store.insert_community(again), Err(ReportError::UniqueViolation));
    assert_eq!(store.community(CommunityId(10)).unwrap().title, "Main");
}

#[test]
fn insert_post_checks_key_and_references() {
    let mut store = seeded();
    assert_eq!(store.insert_post(post(100, 1, 10)), Err(ReportError::UniqueViolation));
    assert_eq!(store.insert_post(post(101, 9, 10)), Err(ReportError::ForeignKeyViolation));
    assert_eq!(store.insert_post(post(101, 1, 99)), Err(ReportError::ForeignKeyViolation));
    assert_eq!(store.insert_post(post(101, 2, 10)), Ok(()));
    let counts = *store.post_aggregates(PostId(101)).unwrap();
    assert_eq!(
        counts,
        PostAggregates { post_id: PostId(101), comments: 0, score: 0, upvotes: 0, downvotes: 0 }
    );
}

#[test]
fn put_post_aggregates_checks_post_and_count() {
    let mut store = seeded();
    let missing = PostAggregates { post_id: PostId(7), comments: 1, score: 0, upvotes: 0, downvotes: 0 };
    assert_eq!(store.put_post_aggregates(missing), Err(ReportError::ForeignKeyViolation));
    let negative =
        PostAggregates { post_id: PostId(100), comments: -1, score: 0, upvotes: 0, downvotes: 0 };
    assert_eq!(store.put_post_aggregates(negative), Err(ReportError::CheckViolation));
    let good = PostAggregates { post_id: PostId(100), comments: 12, score: 3, upvotes: 4, downvotes: 1 };
    assert_eq!(store.put_post_aggregates(good), Ok(()));
    assert_eq!(*store.post_aggregates(PostId(100)).unwrap(), good);
}

#[test]
fn put_local_user_needs_the_person() {
    let mut store = seeded();
    let ghost = LocalUser { person_id: PersonId(9), admin: true };
    assert_eq!(store.put_local_user(ghost), Err(ReportError::ForeignKeyViolation));
    assert!(store.local_user(PersonId(9)).is_none());
    let admin = LocalUser { person_id: PersonId(2), admin: true };
    assert_eq!(store.put_local_user(admin), Ok(()));
    assert_eq!(*store.local_user(PersonId(2)).unwrap(), admin);
    let demoted = LocalUser { person_id: PersonId(2), admin: false };
    assert_eq!(store.put_local_user(demoted), Ok(()));
    assert_eq!(*store.local_user(PersonId(2)).unwrap(), demoted);
}

#[test]
fn put_actions_need_both_ends() {
    let mut store = seeded();
    let edge = CommunityActions {
        person_id: PersonId(9),
        community_id: CommunityId(10),
        followed: None,
        follow_state: None,
        became_moderator: Some(1),
        received_ban: None,
    };
    assert_eq!(store.put_community_actions(edge), Err(ReportError::ForeignKeyViolation));
    let edge = CommunityActions { person_id: PersonId(1), community_id: CommunityId(11), ..edge };
    assert_eq!(store.put_community_actions(edge), Err(ReportError::ForeignKeyViolation));
    let edge = CommunityActions { community_id: CommunityId(10), ..edge };
    assert_eq!(store.put_community_actions(edge), Ok(()));
    assert_eq!(*store.community_actions(PersonId(1), CommunityId(10)).unwrap(), edge);
    assert!(store.community_actions(PersonId(10), CommunityId(1)).is_none());

    let block = PersonActions { person_id: PersonId(1), target_id: PersonId(9), blocked: Some(1) };
    assert_eq!(store.put_person_actions(block), Err(ReportError::ForeignKeyViolation));
    let block = PersonActions { target_id: PersonId(2), ..block };
    assert_eq!(store.put_person_actions(block), Ok(()));
    assert_eq!(*store.person_actions(PersonId(1), PersonId(2)).unwrap(), block);
    assert!(store.person_actions(PersonId(2), PersonId(1)).is_none());
}

#[test]
fn put_post_actions_checks_references_and_amount() {
    let mut store = seeded();
    let actions = PostActions {
        person_id: PersonId(2),
        post_id: PostId(100),
        read: Some(5),
        read_comments_amount: Some(-1),
        saved: None,
        like_score: Some(1),
        hidden: None,
    };
    assert_eq!(store.put_post_actions(actions), Err(ReportError::CheckViolation));
    let other = PostActions { post_id: PostId(7), ..actions };
    assert_eq!(store.put_post_actions(other), Err(ReportError::ForeignKeyViolation));
    let good = PostActions { read_comments_amount: Some(0), ..actions };
    assert_eq!(store.put_post_actions(good), Ok(()));
    assert_eq!(*store.post_actions(PersonId(2), PostId(100)).unwrap(), good);
}

#[test]
fn report_gets_next_identifier_and_is_unresolved() {
    let mut store = seeded();
    let first = store.report(&form(2, 100, "spam"), 50).unwrap();
    assert_eq!(first.id, PostReportId(1));
    assert_eq!(first.creator_id, PersonId(2));
    assert_eq!(first.post_id, PostId(100));
    assert_eq!(first.original_post_name, "snapshot");
    assert_eq!(first.original_post_url.as_deref(), Some("https://example.test/x"));
    assert_eq!(first.original_post_body, None);
    assert_eq!(first.reason, "spam");
    assert!(!first.resolved);
    assert_eq!(first.resolver_id, None);
    assert_eq!(first.published, 50);
    assert_eq!(first.updated, None);
    let second = store.report(&form(3, 100, "rude"), 60).unwrap();
    assert_eq!(second.id, PostReportId(2));
    assert_eq!(store.reports().len(), 2);
    assert_eq!(store.find_report(PostReportId(2)), Some(1));
}

#[test]
fn second_report_by_same_creator_on_same_post_fails() {
    let mut store = seeded();
    store.report(&form(2, 100, "spam"), 50).unwrap();
    assert!(store.has_reported(PersonId(2), PostId(100)));
    assert!(!store.has_reported(PersonId(3), PostId(100)));
    assert_eq!(store.report(&form(2, 100, "again"), 51), Err(ReportError::UniqueViolation));
    assert_eq!(store.reports().len(), 1);
    assert_eq!(store.reports()[0].reason, "spam");
    // another creator, or another post, is fine
    store.insert_post(post(101, 1, 10)).unwrap();
    assert!(store.report(&form(3, 100, "x"), 52).is_ok());
    assert!(store.report(&form(2, 101, "y"), 53).is_ok());
}

#[test]
fn report_needs_post_and_creator() {
    let mut store = seeded();
    assert_eq!(store.report(&form(2, 999, "x"), 1), Err(ReportError::ForeignKeyViolation));
    assert_eq!(store.report(&form(9, 100, "x"), 1), Err(ReportError::ForeignKeyViolation));
    assert!(store.reports().is_empty());
}

#[test]
fn reports_are_kept_in_order_of_filing() {
    let mut store = seeded();
    store.report(&form(1, 100, "t30"), 30).unwrap();
    store.report(&form(2, 100, "t10"), 10).unwrap();
    store.report(&form(3, 100, "t30b"), 30).unwrap();
    let reasons: Vec<&str> = store.reports().iter().map(|r| r.reason.as_str()).collect();
    assert_eq!(reasons, vec!["t10", "t30", "t30b"]);
    let ids: Vec<i32> = store.reports().iter().map(|r| r.id.0).collect();
    assert_eq!(ids, vec![2, 1, 3]);
    assert_eq!(store.find_report(PostReportId(1)), Some(1));
}

#[test]
fn resolve_and_unresolve_stamp_and_clear() {
    let mut store = seeded();
    let filed = store.report(&form(2, 100, "spam"), 50).unwrap();
    assert_eq!(store.resolve(PostReportId(9), PersonId(1), 60), Err(ReportError::NotFound));
    assert_eq!(store.resolve(filed.id, PersonId(9), 60), Err(ReportError::ForeignKeyViolation));
    assert!(!store.reports()[0].resolved);
    assert_eq!(store.resolve(filed.id, PersonId(1), 60), Ok(()));
    let now = store.reports()[0].clone();
    assert!(now.resolved);
    assert_eq!(now.resolver_id, Some(PersonId(1)));
    assert_eq!(now.updated, Some(60));
    assert_eq!(now.reason, "spam");
    assert_eq!(now.published, 50);
    assert_eq!(store.unresolve(PostReportId(9), 70), Err(ReportError::NotFound));
    assert_eq!(store.unresolve(filed.id, 70), Ok(()));
    let now = store.reports()[0].clone();
    assert!(!now.resolved);
    assert_eq!(now.resolver_id, None);
    assert_eq!(now.updated, Some(70));
}

#[test]
fn resolve_all_resolves_every_open_report_on_the_post_once() {
    let mut store = seeded();
    store.insert_post(post(101, 1, 10)).unwrap();
    store.report(&form(1, 100, "a"), 1).unwrap();
    store.report(&form(2, 100, "b"), 2).unwrap();
    store.report(&form(3, 100, "c"), 3).unwrap();
    store.report(&form(2, 101, "other post"), 4).unwrap();
    store.resolve(PostReportId(1), PersonId(3), 5).unwrap();
    assert!(store.has_open_report(PostId(100)));

    assert_eq!(store.resolve_all_for_object(PostId(100), PersonId(1), 9), Ok(()));
    let after: Vec<_> = store.reports().to_vec();
    assert_eq!(after[0].resolver_id, Some(PersonId(3)));
    assert_eq!(after[0].updated, Some(5));
    assert_eq!(after[1].resolver_id, Some(PersonId(1)));
    assert_eq!(after[1].updated, Some(9));
    assert_eq!(after[2].resolver_id, Some(PersonId(1)));
    assert!(after[0].resolved && after[1].resolved && after[2].resolved);
    assert!(!after[3].resolved);
    assert_eq!(after[3].resolver_id, None);
    assert!(!store.has_open_report(PostId(100)));
    assert!(store.has_open_report(PostId(101)));

    // once more: nothing changes, whoever asks, and it is no error
    assert_eq!(store.resolve_all_for_object(PostId(100), PersonId(2), 99), Ok(()));
    assert_eq!(store.reports().to_vec(), after);
    assert_eq!(store.resolve_all_for_object(PostId(100), PersonId(77), 99), Ok(()));
    assert_eq!(store.reports().to_vec(), after);
}

#[test]
fn resolve_all_with_unknown_resolver_fails_only_where_there_is_work() {
    let mut store = seeded();
    store.report(&form(2, 100, "b"), 2).unwrap();
    assert_eq!(
        store.resolve_all_for_object(PostId(100), PersonId(77), 9),
        Err(ReportError::ForeignKeyViolation)
    );
    assert!(!store.reports()[0].resolved);
    assert_eq!(store.resolve_all_for_object(PostId(555), PersonId(77), 9), Ok(()));
}

fn stored(id: i32, creator: i32, post: i32, published: i64) -> PostReport {
    PostReport {
        id: PostReportId(id),
        creator_id: PersonId(creator),
        post_id: PostId(post),
        original_post_name: "snapshot".to_string(),
        original_post_url: None,
        original_post_body: None,
        reason: format!("r{}", id),
        resolved: false,
        resolver_id: None,
        published,
        updated: None,
    }
}

#[test]
fn insert_report_takes_reports_as_they_are() {
    let mut store = seeded();
    assert_eq!(store.insert_report(stored(40, 1, 100, 9)), Ok(()));
    let resolved = PostReport {
        resolved: true,
        resolver_id: Some(PersonId(3)),
        updated: Some(8),
        ..stored(7, 2, 100, 5)
    };
    assert_eq!(store.insert_report(resolved.clone()), Ok(()));
    assert_eq!(store.reports().to_vec(), vec![resolved, stored(40, 1, 100, 9)]);
    assert_eq!(store.find_report(PostReportId(40)), Some(1));
    // the next report filed gets the identifier after the highest
    let filed = store.report(&form(3, 100, "new"), 6).unwrap();
    assert_eq!(filed.id, PostReportId(41));
    assert_eq!(store.find_report(PostReportId(41)), Some(1));
}

#[test]
fn insert_report_rejects_what_breaks_a_constraint() {
    let mut store = seeded();
    store.insert_report(stored(5, 1, 100, 9)).unwrap();
    assert_eq!(store.insert_report(stored(6, 2, 999, 9)), Err(ReportError::ForeignKeyViolation));
    assert_eq!(store.insert_report(stored(6, 9, 100, 9)), Err(ReportError::ForeignKeyViolation));
    let unknown_resolver =
        PostReport { resolved: true, resolver_id: Some(PersonId(9)), ..stored(6, 2, 100, 9) };
    assert_eq!(store.insert_report(unknown_resolver), Err(ReportError::ForeignKeyViolation));
    assert_eq!(store.insert_report(stored(5, 2, 100, 9)), Err(ReportError::UniqueViolation));
    assert_eq!(store.insert_report(stored(6, 1, 100, 9)), Err(ReportError::UniqueViolation));
    let resolved_by_nobody = PostReport { resolved: true, ..stored(6, 2, 100, 9) };
    assert_eq!(store.insert_report(resolved_by_nobody), Err(ReportError::CheckViolation));
    let open_with_resolver = PostReport { resolver_id: Some(PersonId(3)), ..stored(6, 2, 100, 9) };
    assert_eq!(store.insert_report(open_with_resolver), Err(ReportError::CheckViolation));
    assert_eq!(store.reports().len(), 1);
}

#[test]
fn identifiers_run_out_at_the_highest() {
    let mut store = seeded();
    store.insert_report(stored(i32::MAX, 1, 100, 9)).unwrap();
    assert_eq!(store.report(&form(2, 100, "x"), 10), Err(ReportError::StoreUnavailable));
    assert_eq!(store.reports().len(), 1);
}
