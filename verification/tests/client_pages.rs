use blawgd::client::components::SessionInfo;
use blawgd::client::error::ClientError;
use blawgd::client::fetch::{checked_values, convert_tm_to_ics_merkle_proof, prefetched_values};
use blawgd::client::verification::GetResponse;
use blawgd::client::host::Host;
use blawgd::client::pages::{
    bump_count, is_following, path_argument, profile_button, send_amount, ButtonType, DENOM,
};
use blawgd::client::light_store::{extreme_height, light_store_key, Status};
use blawgd::client::views::{
    account_infos_from, author_account_keys, normalize_account_info, AccountInfo, Post,
};
use prost::Message;

fn s(x: &str) -> String {
    x.to_string()
}

fn account(address: &str, name: &str) -> AccountInfo {
    AccountInfo {
        address: s(address),
        name: s(name),
        photo: s(""),
        following_count: 0,
        followers_count: 0,
        post_count: 4,
    }
}

fn session(address: &str) -> Option<SessionInfo> {
    Some(SessionInfo { account_info: account(address, "Me"), balance: 10 })
}

#[test]
fn url_arguments() {
    let h = Host::new(s("https:"), s("blawgd.com"), s(""));
    assert_eq!(path_argument(&h, "profile", "https://blawgd.com/profile/cosmos1abc"), Ok(s("cosmos1abc")));
    assert_eq!(path_argument(&h, "post", "https://blawgd.com/post/17"), Ok(s("17")));
    assert_eq!(path_argument(&h, "post", "https://blawgd.com/profile/17"), Err(ClientError::UnknownUrl));
}

#[test]
fn following_and_profile_buttons() {
    let followings = vec![s("cosmos1a"), s("cosmos1b")];
    assert!(!is_following(&None, &followings, &s("cosmos1a")));
    assert!(is_following(&session("cosmos1me"), &followings, &s("cosmos1b")));
    assert!(!is_following(&session("cosmos1me"), &followings, &s("cosmos1c")));
    assert_eq!(profile_button(&None, &s("cosmos1a"), true), None);
    assert_eq!(profile_button(&session("cosmos1me"), &s("cosmos1me"), true), Some(ButtonType::Edit));
    assert_eq!(profile_button(&session("cosmos1me"), &s("cosmos1a"), true), Some(ButtonType::Unfollow));
    assert_eq!(profile_button(&session("cosmos1me"), &s("cosmos1a"), false), Some(ButtonType::Follow));
}

#[test]
fn send_amounts_and_counts() {
    assert_eq!(DENOM, "stake");
    assert_eq!(send_amount("007"), Some(s("7")));
    assert_eq!(send_amount("+12"), Some(s("12")));
    assert_eq!(send_amount("1.5"), None);
    assert_eq!(send_amount(""), None);
    assert_eq!(send_amount("18446744073709551616"), None);
    assert_eq!(bump_count("41"), "42");
    assert_eq!(bump_count("not a number"), "1");
    assert_eq!(bump_count("-1"), "0");
    assert_eq!(bump_count("-5"), "-4");
    assert_eq!(bump_count("-2147483648"), "-2147483647");
}

#[test]
fn fetched_accounts_are_shown() {
    let addresses = vec![s("cosmos1alice"), s("cosmos1bobby")];
    let found = vec![
        (s("ac-cosmos1bobby"), None),
        (s("ac-cosmos1alice"), Some(account("ignored", "Alice"))),
    ];
    let shown = account_infos_from(&addresses, found);
    assert_eq!(shown.len(), 2);
    assert_eq!(shown[0].address, "cosmos1bobby");
    assert_eq!(shown[0].name, "anonbobby");
    assert_eq!(shown[0].post_count, 0);
    assert_eq!(shown[1].address, "cosmos1alice");
    assert_eq!(shown[1].name, "Alice");
    assert_eq!(shown[1].post_count, 4);
}

#[test]
fn author_keys_include_reposted_authors() {
    let inner = Post {
        id: s("1"),
        creator: s("cosmos1bob"),
        content: s(""),
        parent_post: s(""),
        comments_count: 0,
        like_count: 0,
        repost_count: 0,
        repost_parent: None,
    };
    let outer = Post {
        id: s("2"),
        creator: s("cosmos1amy"),
        content: s(""),
        parent_post: s(""),
        comments_count: 0,
        like_count: 0,
        repost_count: 0,
        repost_parent: Some(Box::new(inner)),
    };
    let plain = Post { id: s("3"), creator: s("cosmos1cat"), ..Post {
        id: s(""),
        creator: s(""),
        content: s(""),
        parent_post: s(""),
        comments_count: 0,
        like_count: 0,
        repost_count: 0,
        repost_parent: None,
    } };
    assert_eq!(
        author_account_keys(&vec![outer, plain]),
        vec!["ac-cosmos1amy", "ac-cosmos1bob", "ac-cosmos1cat"]
    );
}

fn exist_proof(key: &[u8], value: &[u8]) -> (Vec<u8>, Vec<u8>) {
    let ex = ics23::ExistenceProof {
        key: key.to_vec(),
        value: value.to_vec(),
        leaf: ics23::iavl_spec().leaf_spec,
        path: vec![],
    };
    let root = ics23::calculate_existence_root(&ex).unwrap();
    let proof = ics23::CommitmentProof { proof: Some(ics23::commitment_proof::Proof::Exist(ex)) };
    (proof.encode_to_vec(), root)
}

fn proof_ops(datas: Vec<Vec<u8>>) -> Vec<u8> {
    let ops = datas
        .into_iter()
        .map(|d| tendermint_proto::crypto::ProofOp { data: d, ..Default::default() })
        .collect();
    tendermint_proto::crypto::ProofOps { ops }.encode_to_vec()
}

#[test]
fn read_answers_are_checked() {
    let (p1, module_root) = exist_proof(b"ac-cosmos1alice", b"alice's account");
    let (p2, app_root) = exist_proof(b"blawgd", &module_root);
    let ops = proof_ops(vec![p1.clone(), p2.clone()]);
    assert_eq!(convert_tm_to_ics_merkle_proof(&ops), Ok(vec![p1.clone(), p2.clone()]));
    assert_eq!(convert_tm_to_ics_merkle_proof(&[0xff]), Err(ClientError::ProofUndecodable));
    assert_eq!(
        convert_tm_to_ics_merkle_proof(&proof_ops(vec![vec![0xff, 0xff]])),
        Err(ClientError::ProofUndecodable)
    );

    let keys = vec![s("ac-cosmos1alice")];
    let data = vec![(s("ac-cosmos1alice"), b"alice's account".to_vec())];
    let proofs = vec![(s("ac-cosmos1alice"), ops.clone())];
    let got = checked_values(&keys, data.clone(), &proofs, &app_root, true).unwrap();
    assert_eq!(got, vec![(s("ac-cosmos1alice"), Some(b"alice's account".to_vec()))]);

    let forged = vec![(s("ac-cosmos1alice"), b"forged".to_vec())];
    assert_eq!(
        checked_values(&keys, forged.clone(), &proofs, &app_root, true),
        Err(ClientError::ProofRejected)
    );
    // Without verification the forged value is taken as it is.
    assert_eq!(
        checked_values(&keys, forged, &proofs, &app_root, false),
        Ok(vec![(s("ac-cosmos1alice"), Some(b"forged".to_vec()))])
    );
    assert_eq!(
        checked_values(&vec![s("p-1")], data.clone(), &proofs, &app_root, true),
        Err(ClientError::MissingData)
    );
    let empty = vec![(s("p-1"), vec![])];
    assert_eq!(
        checked_values(&vec![s("p-1")], empty.clone(), &proofs, &app_root, true),
        Err(ClientError::MissingProof)
    );
    let absent_proof = vec![(s("p-1"), ops)];
    assert_eq!(
        checked_values(&vec![s("p-1")], empty, &absent_proof, &app_root, true),
        Ok(vec![(s("p-1"), None)])
    );
    let twice = vec![(s("ac-cosmos1alice"), b"alice's account".to_vec()), (s("ac-cosmos1alice"), b"forged".to_vec())];
    assert_eq!(
        checked_values(&keys, twice.clone(), &proofs, &app_root, true),
        Err(ClientError::DuplicateKey)
    );
    assert_eq!(checked_values(&keys, twice, &proofs, &app_root, false), Err(ClientError::DuplicateKey));
    // Read from data fetched ahead, a key asked for twice is answered once.
    let resp = GetResponse { data: data.clone(), proofs: proofs.clone() };
    let twice_asked = vec![s("ac-cosmos1alice"), s("ac-cosmos1alice")];
    assert_eq!(
        prefetched_values(&resp, &twice_asked, &app_root, true),
        Ok(vec![(s("ac-cosmos1alice"), Some(b"alice's account".to_vec()))])
    );
    assert_eq!(
        prefetched_values(&resp, &vec![s("p-1")], &app_root, true),
        Err(ClientError::MissingPrefetchedKey)
    );
}

#[test]
fn send_page_surrounds_the_nav_bar() {
    let html = blawgd::client::components::send_page_to_html("<nav/>");
    assert!(html.starts_with("\n<div class=\"page\">\n    <div class=\"page-wrapper\">\n        <nav/>"));
    assert!(html.contains("<div id=\"send\" class=\"button\">Send</div>"));
}

#[test]
fn showing_an_account_twice_changes_nothing() {
    let once = normalize_account_info(account("x", ""), s("cosmos1qwerty"));
    let twice = normalize_account_info(once.clone(), s("cosmos1qwerty"));
    assert_eq!(once.name, twice.name);
    assert_eq!(once.photo, twice.photo);
    assert_eq!(once.address, twice.address);
}

#[test]
fn block_keys_name_their_height() {
    for h in [0u64, 9, 10, 123, u64::MAX] {
        let keys = vec![light_store_key(Status::Verified, h)];
        assert_eq!(extreme_height(&keys, Status::Verified, true), h);
        assert_eq!(extreme_height(&keys, Status::Verified, false), h);
    }
}

#[test]
fn reads_happen_below_the_trusted_block() {
    assert_eq!(blawgd::client::verification::request_height(100, true), 99);
    assert_eq!(blawgd::client::verification::request_height(100, false), 0);
    assert_eq!(
        blawgd::client::verification::post_keys_for(&vec![s("4"), s("9")]),
        vec![s("p-4"), s("p-9")]
    );
}
