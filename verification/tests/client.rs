use blawgd::client::components::{NavBar, PostComponent, SessionInfo};
use blawgd::client::error::ClientError;
use blawgd::client::host::Host;
use blawgd::client::keys::{
    account_info_key, following_key, get_default_path, post_key, subpost_key, user_post_key,
};
use blawgd::client::light_store::{
    extreme_height, keys_to_prune, light_store_key, prune_keys_readable, status_string, Status,
};
use blawgd::client::merkle::{get_cosmos_specs, verify_membership, verify_non_membership, SpecKind};
use blawgd::client::paging::{
    account_post_page_keys, pagination, parent_post_page_keys, timeline_page_keys,
};
use blawgd::client::routes::{route, Page};
use blawgd::client::scroll::{
    AccountPostGetter, PageState, ParentPostGetter, PostGetter, PostRequest, TimelinePostGetter,
};
use blawgd::client::storage::{reset_on_update, ResetAction, VERSION};
use blawgd::client::messages::{
    like_message, repost_message, send_message, MSG_BANK_SEND, MSG_TYPE_LIKE, MSG_TYPE_REPOST,
};
use blawgd::client::verification::{
    post_ids, present_only,
    parse_following_list, present_values, select_prefetched, split_string,
    validate_membership_args, GetResponse, VerificationClient,
};
use blawgd::client::views::{
    normalize_account_info, posts_to_post_views, sort_post_views, AccountInfo, Post, PostView,
};
use prost::Message;

fn s(x: &str) -> String {
    x.to_string()
}

fn account(address: &str, name: &str, photo: &str) -> AccountInfo {
    AccountInfo {
        address: s(address),
        name: s(name),
        photo: s(photo),
        following_count: 1,
        followers_count: 2,
        post_count: 3,
    }
}

// ---------------------------------------------------------------------------
// Addresses and keys.

#[test]
fn host_endpoints() {
    let h = Host::new(s("https:"), s("blawgd.com"), s(""));
    assert_eq!(h.endpoint(), "https://blawgd.com");
    assert_eq!(h.tendermint_endpoint(), "https://tendermint.blawgd.com");
    assert_eq!(h.grpc_endpoint(), "https://grpc.blawgd.com");
    assert_eq!(h.faucet_endpoint(), "https://faucet.blawgd.com");
    assert_eq!(h.port_suffix(), "");
    let h = Host::new(s("http:"), s("localhost"), s("2341"));
    assert_eq!(h.port_suffix(), ":2341");
    assert_eq!(h.endpoint(), "http://localhost:2341");
    assert_eq!(h.grpc_endpoint(), "http://grpc.localhost:2341");
    assert_eq!(h.clone().tendermint_endpoint(), "http://tendermint.localhost:2341");
}

#[test]
fn storage_keys() {
    assert_eq!(user_post_key(s("cosmos1abc"), s("3")), "up-cosmos1abc-3");
    assert_eq!(subpost_key(s("12"), s("1")), "sp-12-1");
    assert_eq!(post_key(s("12")), "p-12");
    assert_eq!(account_info_key(s("cosmos1abc")), "ac-cosmos1abc");
    assert_eq!(following_key(s("cosmos1abc")), "f-cosmos1abc");
    let path = get_default_path(b"p-1");
    assert_eq!(path, vec![&b"p-1"[..], &b"blawgd"[..]]);
}

// ---------------------------------------------------------------------------
// Paging.

#[test]
fn pagination_pages_newest_first() {
    assert_eq!(pagination(1, 100, 1, 30), Ok((71, 100)));
    assert_eq!(pagination(1, 100, 2, 30), Ok((41, 70)));
    assert_eq!(pagination(1, 100, 3, 30), Ok((11, 40)));
    assert_eq!(pagination(1, 100, 4, 30), Ok((1, 10)));
    assert_eq!(pagination(1, 100, 5, 30), Err(ClientError::PageTooHigh));
    assert_eq!(pagination(1, 20, 1, 30), Ok((1, 20)));
    assert_eq!(pagination(1, 20, 2, 30), Err(ClientError::PageTooHigh));
    assert_eq!(pagination(1, 30, 1, 30), Ok((1, 30)));
    assert_eq!(pagination(1, 31, 2, 30), Ok((1, 1)));
}

#[test]
fn pages_meet_end_to_end() {
    let n = 137;
    let mut next_max = n;
    let mut page = 1;
    while let Ok((lo, hi)) = pagination(1, n, page, 5) {
        assert_eq!(hi, next_max);
        assert!(hi - lo < 5);
        next_max = lo - 1;
        page += 1;
    }
    assert_eq!(next_max, 0);
}

#[test]
fn page_keys() {
    let a = s("cosmos1xyz");
    assert_eq!(account_post_page_keys(&a, 3, 0), vec!["up-cosmos1xyz-3", "up-cosmos1xyz-2", "up-cosmos1xyz-1"]);
    assert_eq!(account_post_page_keys(&a, 3, 2), Vec::<String>::new());
    assert_eq!(account_post_page_keys(&a, 0, 1), Vec::<String>::new());
    let keys = account_post_page_keys(&a, 45, 2);
    assert_eq!(keys.len(), 15);
    assert_eq!(keys[0], "up-cosmos1xyz-15");
    assert_eq!(keys[14], "up-cosmos1xyz-1");
    assert_eq!(parent_post_page_keys(&s("7"), 2, 1), vec!["sp-7-2", "sp-7-1"]);
    let followings = vec![(s("a"), Some(7)), (s("b"), None), (s("c"), Some(0)), (s("d"), Some(2))];
    assert_eq!(
        timeline_page_keys(&followings, 1),
        vec!["up-a-3", "up-a-4", "up-a-5", "up-a-6", "up-a-7", "up-d-1", "up-d-2"]
    );
    assert_eq!(timeline_page_keys(&followings, 2), vec!["up-a-1", "up-a-2"]);
}

// ---------------------------------------------------------------------------
// Accounts and posts as shown.

#[test]
fn normalize_fills_defaults() {
    let a = normalize_account_info(account("x", "", ""), s("cosmos1qwertyuiop"));
    assert_eq!(a.address, "cosmos1qwertyuiop");
    assert_eq!(a.name, "anonyuiop");
    assert_eq!(a.photo, "/assets/imgs/profile.jpeg");
    assert_eq!((a.following_count, a.followers_count, a.post_count), (1, 2, 3));
    let b = normalize_account_info(account("x", "Bob", "/me.png"), s("cosmos1qwertyuiop"));
    assert_eq!(b.name, "Bob");
    assert_eq!(b.photo, "/me.png");
    let c = normalize_account_info(account("x", "", "p"), s("abcde"));
    assert_eq!(c.name, "anonabcde");
}

fn post(id: &str, creator: &str, repost: Option<Post>) -> Post {
    Post {
        id: s(id),
        creator: s(creator),
        content: format!("content {}", id),
        parent_post: s(""),
        comments_count: 1,
        like_count: 2,
        repost_count: 3,
        repost_parent: repost.map(Box::new),
    }
}

#[test]
fn posts_joined_with_authors() {
    let infos = vec![(s("ac-cosmos1alice"), account("cosmos1alice", "Alice", "/a.png"))];
    let posts = vec![
        post("1", "cosmos1alice", None),
        post("2", "cosmos1bobby", Some(post("1", "cosmos1alice", None))),
        post("3", "", None),
    ];
    let views = posts_to_post_views(&infos, posts);
    assert_eq!(views.len(), 3);
    let a = views[0].creator.as_ref().unwrap();
    assert_eq!(a.name, "Alice");
    assert_eq!(a.address, "cosmos1alice");
    let b = views[1].creator.as_ref().unwrap();
    assert_eq!(b.name, "anonbobby");
    assert_eq!(b.photo, "/assets/imgs/profile.jpeg");
    let r = views[1].repost_parent.as_ref().unwrap();
    assert_eq!(r.id, "1");
    assert_eq!(r.creator.as_ref().unwrap().name, "Alice");
    assert!(r.repost_parent.is_none());
    let c = views[2].creator.as_ref().unwrap();
    assert_eq!(c.name, "");
    assert_eq!(c.address, "");
    assert_eq!(views[2].content, "content 3");
}

fn view(id: &str, content: &str) -> PostView {
    PostView {
        id: s(id),
        creator: None,
        content: s(content),
        parent_post: s(""),
        comments_count: 0,
        like_count: 0,
        repost_count: 0,
        repost_parent: None,
    }
}

#[test]
fn posts_sorted_by_id_descending() {
    let v = vec![view("3", "a"), view("10", "b"), view("x", "c"), view("3", "d"), view("+7", "e")];
    let sorted = sort_post_views(v);
    let ids: Vec<(&str, &str)> = sorted.iter().map(|p| (p.id.as_str(), p.content.as_str())).collect();
    assert_eq!(ids, vec![("10", "b"), ("+7", "e"), ("3", "a"), ("3", "d"), ("x", "c")]);
}

// ---------------------------------------------------------------------------
// Light client storage.

#[test]
fn light_store_keys_and_heights() {
    assert_eq!(status_string(Status::Trusted), "trusted");
    assert_eq!(status_string(Status::Unverified), "unverified");
    assert_eq!(light_store_key(Status::Trusted, 42), "light-trusted-42");
    assert_eq!(light_store_key(Status::Failed, 0), "light-failed-0");
    let keys = vec![
        s("light-trusted-42"),
        s("light-verified-99"),
        s("light-trusted-7"),
        s("app_data"),
        s("light-trusted-1000"),
    ];
    assert_eq!(extreme_height(&keys, Status::Trusted, true), 1000);
    assert_eq!(extreme_height(&keys, Status::Trusted, false), 7);
    assert_eq!(extreme_height(&keys, Status::Failed, true), 0);
    assert_eq!(extreme_height(&keys, Status::Failed, false), u64::MAX);
    assert_eq!(keys_to_prune(&keys, 50), vec!["light-trusted-7"]);
    assert_eq!(keys_to_prune(&keys, 1000), vec!["light-trusted-42", "light-verified-99", "light-trusted-7"]);
    assert!(prune_keys_readable(&keys, 50));
    assert!(!prune_keys_readable(&keys, 9));
    assert!(!prune_keys_readable(&vec![s("light-trusted-x")], 50));
    assert!(prune_keys_readable(&vec![s("other")], 0));
}

#[test]
fn reset_only_for_other_versions() {
    assert_eq!(reset_on_update(VERSION), ResetAction::Keep);
    assert_eq!(reset_on_update(0), ResetAction::PurgeAndStore(1));
    assert_eq!(reset_on_update(7), ResetAction::PurgeAndStore(1));
}

#[test]
fn routes_to_pages() {
    let h = Host::new(s("https:"), s("blawgd.com"), s(""));
    assert_eq!(route(&h, "https://blawgd.com/post/5"), Ok(Page::Post));
    assert_eq!(route(&h, "https://blawgd.com/profile/cosmos1"), Ok(Page::Profile));
    assert_eq!(route(&h, "https://blawgd.com/edit-profile"), Ok(Page::EditProfile));
    assert_eq!(route(&h, "https://blawgd.com/followings/a"), Ok(Page::Followings));
    assert_eq!(route(&h, "https://blawgd.com/timeline"), Ok(Page::Timeline));
    assert_eq!(route(&h, "https://blawgd.com/login"), Ok(Page::Login));
    assert_eq!(route(&h, "https://blawgd.com/faucet"), Ok(Page::Faucet));
    assert_eq!(route(&h, "https://blawgd.com/send"), Ok(Page::Send));
    assert_eq!(route(&h, "https://blawgd.com/"), Ok(Page::Home));
    assert_eq!(route(&h, "https://blawgd.com"), Err(ClientError::UnknownUrl));
    assert_eq!(route(&h, "https://other.com/post"), Err(ClientError::UnknownUrl));
}

#[test]
fn scrolling_loads_the_next_page() {
    let mut st = PageState { page: 1 };
    assert_eq!(st.page_to_load(900, 100, 1000), Some(2));
    assert_eq!(st.page_to_load(800, 100, 1000), None);
    st.loaded(0);
    assert_eq!(st.page, 1);
    st.loaded(5);
    assert_eq!(st.page, 2);
}

#[test]
fn getters_ask_for_their_own_list() {
    let t = TimelinePostGetter { address: s("alice") };
    assert!(matches!(
        t.post_request(3),
        PostRequest::Timeline { ref address, page: 3 } if address == "alice"
    ));
    let a = AccountPostGetter { address: s("bob") };
    assert!(matches!(
        a.post_request(1),
        PostRequest::ByAccount { ref address, page: 1 } if address == "bob"
    ));
    let p = ParentPostGetter { parent_post: s("7") };
    assert!(matches!(
        p.post_request(2),
        PostRequest::ByParent { ref parent_post, page: 2 } if parent_post == "7"
    ));
}

// ---------------------------------------------------------------------------
// Reading verified data.

#[test]
fn prefetched_entries_are_selected() {
    let resp = GetResponse {
        data: vec![(s("a"), vec![1]), (s("b"), vec![])],
        proofs: vec![(s("b"), vec![8]), (s("a"), vec![9])],
    };
    let (d, p) = select_prefetched(&resp, &vec![s("b"), s("a")]).unwrap();
    assert_eq!(d, vec![(s("b"), vec![]), (s("a"), vec![1])]);
    assert_eq!(p, vec![(s("b"), vec![8]), (s("a"), vec![9])]);
    assert_eq!(select_prefetched(&resp, &vec![s("c")]).err(), Some(ClientError::MissingPrefetchedKey));
    // A key asked for twice is answered once.
    let (d2, p2) = select_prefetched(&resp, &vec![s("a"), s("b"), s("a")]).unwrap();
    assert_eq!(d2, vec![(s("a"), vec![1]), (s("b"), vec![])]);
    assert_eq!(p2, vec![(s("a"), vec![9]), (s("b"), vec![8])]);
    let present = present_values(d);
    assert_eq!(present, vec![(s("b"), None), (s("a"), Some(vec![1]))]);
    let mut vc = VerificationClient::new(true);
    assert!(vc.prefetch.is_none());
    vc.with_prefetch(vec![5], resp);
    assert!(vc.verify);
    assert_eq!(vc.prefetch.as_ref().unwrap().0, vec![5]);
}

#[test]
fn following_lists_are_split() {
    assert_eq!(parse_following_list(None), Ok(Vec::<String>::new()));
    assert_eq!(parse_following_list(Some(b"a,b".to_vec())), Ok(vec![s("a"), s("b")]));
    assert_eq!(parse_following_list(Some(b"".to_vec())), Ok(vec![s("")]));
    assert_eq!(parse_following_list(Some(vec![0xff])), Err(ClientError::InvalidUtf8));
    assert_eq!(split_string(",x,", ','), vec![s(""), s("x"), s("")]);
}

#[test]
fn membership_args_checked_in_order() {
    assert_eq!(validate_membership_args(2, 0, &[], 1), Err(ClientError::EmptyProof));
    assert_eq!(validate_membership_args(2, 1, &[], 1), Err(ClientError::EmptyRoot));
    assert_eq!(validate_membership_args(2, 1, &[1], 1), Err(ClientError::ProofCountMismatch));
    assert_eq!(validate_membership_args(2, 2, &[1], 1), Err(ClientError::PathLengthMismatch));
    assert_eq!(validate_membership_args(2, 2, &[1], 2), Ok(()));
    assert_eq!(get_cosmos_specs(), vec![SpecKind::Iavl, SpecKind::Tendermint]);
}

fn exist_proof(key: &[u8], value: &[u8]) -> (Vec<u8>, Vec<u8>) {
    let ex = ics23::ExistenceProof {
        key: key.to_vec(),
        value: value.to_vec(),
        leaf: ics23::iavl_spec().leaf_spec,
        path: vec![],
    };
    let root = ics23::calculate_existence_root(&ex).unwrap();
    let proof = ics23::CommitmentProof { proof: Some(ics23::commitment_proof::Proof::Exist(ex)) };
    (proof.encode_to_vec(), root)
}

#[test]
fn membership_proofs_are_followed_to_the_root() {
    let (p1, module_root) = exist_proof(b"ac-cosmos1alice", b"stored value");
    let (p2, app_root) = exist_proof(b"blawgd", &module_root);
    let proofs = vec![p1.clone(), p2.clone()];
    assert_eq!(verify_membership(&proofs, &app_root, b"ac-cosmos1alice", b"stored value"), Ok(()));
    assert_eq!(
        verify_membership(&proofs, &app_root, b"ac-cosmos1alice", b"other value"),
        Err(ClientError::ProofRejected)
    );
    assert_eq!(
        verify_membership(&proofs, &module_root, b"ac-cosmos1alice", b"stored value"),
        Err(ClientError::RootMismatch)
    );
    assert_eq!(
        verify_membership(&proofs, &app_root, b"ac-cosmos1alice", b""),
        Err(ClientError::EmptyValue)
    );
    assert_eq!(
        verify_membership(&vec![p1.clone()], &app_root, b"ac-cosmos1alice", b"stored value"),
        Err(ClientError::ProofCountMismatch)
    );
    assert_eq!(
        verify_membership(&vec![p1.clone(), vec![0xff, 0xff]], &app_root, b"k", b"v"),
        Err(ClientError::ProofUndecodable)
    );
    assert_eq!(verify_membership(&vec![], &app_root, b"k", b"v"), Err(ClientError::EmptyProof));
    assert_eq!(verify_non_membership(&proofs, &app_root, b"k"), Ok(()));
    assert_eq!(verify_non_membership(&proofs, &[], b"k"), Err(ClientError::EmptyRoot));
}

#[test]
fn batch_proofs_use_the_entry_for_the_key() {
    let ex_other = ics23::ExistenceProof {
        key: b"other".to_vec(),
        value: b"x".to_vec(),
        leaf: ics23::iavl_spec().leaf_spec,
        path: vec![],
    };
    let ex = ics23::ExistenceProof {
        key: b"mine".to_vec(),
        value: b"v".to_vec(),
        leaf: ics23::iavl_spec().leaf_spec,
        path: vec![],
    };
    let module_root = ics23::calculate_existence_root(&ex).unwrap();
    let batch = ics23::CommitmentProof {
        proof: Some(ics23::commitment_proof::Proof::Batch(ics23::BatchProof {
            entries: vec![
                ics23::BatchEntry { proof: Some(ics23::batch_entry::Proof::Exist(ex_other)) },
                ics23::BatchEntry { proof: Some(ics23::batch_entry::Proof::Exist(ex)) },
            ],
        })),
    };
    let (p2, app_root) = exist_proof(b"blawgd", &module_root);
    let proofs = vec![batch.encode_to_vec(), p2];
    assert_eq!(verify_membership(&proofs, &app_root, b"mine", b"v"), Ok(()));
    assert_eq!(verify_membership(&proofs, &app_root, b"none", b"v"), Err(ClientError::NoExistenceProof));
}

// ---------------------------------------------------------------------------
// HTML.

#[test]
fn nav_bar_for_visitor_and_user() {
    let html = NavBar::new(None).to_html();
    assert!(html.contains("Login/Register"));
    assert!(!html.contains("Timeline"));
    assert!(html.starts_with("\n        <div class=\"nav-bar\">"));
    let session = SessionInfo { account_info: account("cosmos1alice", "", "/a.png"), balance: 1234 };
    let html = NavBar::new(Some(session.clone())).to_html();
    assert!(html.contains("href=\"/profile/cosmos1alice\""));
    assert!(html.contains("<div class=\"nav-bar-balance-value\">1234</div>"));
    assert!(html.contains("<div class=\"login-link-component-text\">cosmos1alice</div>"));
    assert!(html.contains("<img src=\"/a.png\""));
    assert!(!html.contains("Login/Register"));
}

#[test]
fn post_component_html() {
    let mut v = view("12", "hello");
    v.creator = Some(account("cosmos1alice", "Alice", "/a.png"));
    v.like_count = 5;
    v.repost_count = 6;
    v.comments_count = 7;
    v.parent_post = s("3");
    let mut c = PostComponent::new(v);
    assert!(!c.focus);
    let html = c.to_html();
    assert!(html.contains("Replying to post 3"));
    assert!(html.contains("<div id=\"post-12-like-content\" class=\"post-component-bar-button-content\">5</div>"));
    assert!(html.contains("<div id=\"post-12-repost-content\" class=\"post-component-bar-button-content\">6</div>"));
    assert!(html.contains("<div class=\"post-component-bar-button-content\">7</div>"));
    assert!(html.contains("class=\"post-component-text\""));
    c.focus();
    assert!(c.to_html().contains("class=\"post-component-text-focus\""));

    let mut inner = view("1", "first words");
    inner.creator = Some(account("cosmos1bobby", "Bob", "/b.png"));
    let mut outer = view("2", "ignored");
    outer.creator = Some(account("cosmos1alice", "Alice", "/a.png"));
    outer.repost_parent = Some(Box::new(inner));
    let html = PostComponent::new(outer).to_html();
    assert!(html.contains("Reposted by Alice"));
    assert!(html.contains("first words"));
    assert!(!html.contains("ignored"));
    assert!(html.contains("@cosmos1bobby"));
    assert!(html.contains("post-2-like"));
}

#[test]
fn stored_post_ids_are_read_as_text() {
    assert_eq!(post_ids(&vec![Some(b"12".to_vec()), Some(b"7".to_vec())]), Ok(vec![s("12"), s("7")]));
    assert_eq!(post_ids(&vec![]), Ok(vec![]));
    assert_eq!(post_ids(&vec![Some(b"1".to_vec()), None]), Err(ClientError::MissingData));
    assert_eq!(
        post_ids(&vec![Some(vec![0xff]), None]),
        Err(ClientError::InvalidUtf8)
    );
}

#[test]
fn absent_posts_are_skipped() {
    assert_eq!(present_only(vec![Some(1), None, Some(3), None]), vec![1, 3]);
    assert_eq!(present_only::<u8>(vec![None, None]), Vec::<u8>::new());
}

fn logged_in(address: &str) -> Option<SessionInfo> {
    Some(SessionInfo {
        account_info: AccountInfo {
            address: s(address),
            name: s(""),
            photo: s(""),
            following_count: 0,
            followers_count: 0,
            post_count: 0,
        },
        balance: 0,
    })
}

#[test]
fn messages_name_the_logged_in_user() {
    assert_eq!(MSG_BANK_SEND, "/cosmos.bank.v1beta1.MsgSend");
    assert_eq!(MSG_TYPE_LIKE, "/blawgd.MsgLikePost");
    assert_eq!(MSG_TYPE_REPOST, "/blawgd.MsgRepost");
    let me = logged_in("cosmos1me");
    let m = send_message(&me, s("cosmos1you"), "0042").unwrap();
    assert_eq!(m.from_address, "cosmos1me");
    assert_eq!(m.to_address, "cosmos1you");
    assert_eq!(m.amount.len(), 1);
    assert_eq!(m.amount[0].denom, "stake");
    assert_eq!(m.amount[0].amount, "42");
    assert_eq!(send_message(&me, s("x"), "4.2").unwrap_err(), ClientError::InvalidAmount);
    assert_eq!(send_message(&None, s("x"), "4").unwrap_err(), ClientError::NotLoggedIn);
    assert_eq!(send_message(&None, s("x"), "-4").unwrap_err(), ClientError::InvalidAmount);
    let l = like_message(&me, &s("9")).unwrap();
    assert_eq!((l.creator.as_str(), l.post_id.as_str(), l.amount), ("cosmos1me", "9", 1));
    assert_eq!(like_message(&None, &s("9")).unwrap_err(), ClientError::NotLoggedIn);
    let r = repost_message(&me, &s("9")).unwrap();
    assert_eq!((r.creator.as_str(), r.post_id.as_str()), ("cosmos1me", "9"));
    assert_eq!(repost_message(&None, &s("9")).unwrap_err(), ClientError::NotLoggedIn);
}
