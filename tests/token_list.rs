use token_list::{AddTokensError, Dispatch, MetadataRecord, TokenList, VerificationRequest};

fn enlist(list: &mut TokenList, token: &str) -> bool {
    list.add_token_to_list_callback(Some(true), token.to_string())
}

fn two_token_list() -> (TokenList, Vec<String>) {
    let mut contract = TokenList::default();
    let tokens: Vec<String> =
        vec!["linear-protocol.testnet".to_string(), "wrap.testnet".to_string()];
    for token in tokens.iter() {
        enlist(&mut contract, token);
    }
    (contract, tokens)
}

fn request(token: &str, holder: &str) -> VerificationRequest {
    VerificationRequest { token: token.to_string(), holder: holder.to_string() }
}

#[test]
fn get_tokens() {
    let (contract, tokens) = two_token_list();
    assert_eq!(
        vec![tokens[0].clone(), tokens[1].clone()],
        contract.get_tokens(0, tokens.len() as u64)
    );
}

#[test]
fn get_tokens_subset() {
    let (contract, tokens) = two_token_list();
    assert_eq!(vec![tokens[0].clone()], contract.get_tokens(0, 1));
}

#[test]
fn get_tokens_out_of_bounds_index() {
    let (contract, _tokens) = two_token_list();
    assert_eq!(Vec::<String>::new(), contract.get_tokens(1000, 1));
}

#[test]
fn get_tokens_offset_at_size_is_empty() {
    let (contract, _tokens) = two_token_list();
    assert!(contract.get_tokens(2, 5).is_empty());
    assert!(TokenList::new().get_tokens(0, 10).is_empty());
    assert_eq!(TokenList::new().len(), 0);
}

#[test]
fn get_tokens_clamps_without_overflow() {
    let (contract, tokens) = two_token_list();
    assert_eq!(vec![tokens[1].clone()], contract.get_tokens(1, u64::MAX));
    assert_eq!(tokens, contract.get_tokens(0, u64::MAX));
    assert!(contract.get_tokens(u64::MAX, u64::MAX).is_empty());
}

#[test]
fn get_tokens_full_enumeration_has_each_once() {
    let mut list = TokenList::new();
    for t in ["a.near", "b.near", "c.near", "b.near", "a.near"] {
        enlist(&mut list, t);
    }
    let all = list.get_tokens(0, 3);
    assert_eq!(all.len(), 3);
    for i in 0..all.len() {
        for j in 0..all.len() {
            if i != j {
                assert_ne!(all[i], all[j]);
            }
        }
    }
}

#[test]
fn metadata_spec_matches_the_standard() {
    assert_eq!(
        token_list::FT_METADATA_SPEC,
        near_contract_standards::fungible_token::metadata::FT_METADATA_SPEC
    );
    assert_eq!(token_list::REFERENCE_HASH_LEN, 32);
}

fn metadata() -> MetadataRecord {
    MetadataRecord {
        spec: "ft-1.0.0".to_string(),
        name: "Wrapped NEAR".to_string(),
        symbol: "wNEAR".to_string(),
        icon: None,
        reference: None,
        reference_hash: None,
        decimals: 24,
    }
}

#[test]
fn verification_accepts_valid_metadata() {
    assert!(TokenList::verify_account_is_token_callback(Some(0), Some(metadata())));
    let mut m = metadata();
    m.reference = Some("https://example.org/ref.json".to_string());
    m.reference_hash = Some(vec![7u8; 32]);
    assert!(TokenList::verify_account_is_token_callback(Some(u128::MAX), Some(m)));
}

#[test]
fn verification_rejects_failed_calls() {
    assert!(!TokenList::verify_account_is_token_callback(None, Some(metadata())));
    assert!(!TokenList::verify_account_is_token_callback(Some(5), None));
    assert!(!TokenList::verify_account_is_token_callback(None, None));
}

#[test]
fn verification_rejects_wrong_spec() {
    let mut m = metadata();
    m.spec = "nft-1.0.0".to_string();
    assert!(!m.is_valid());
    assert!(!TokenList::verify_account_is_token_callback(Some(1), Some(m)));
}

#[test]
fn verification_rejects_reference_without_hash() {
    let mut m = metadata();
    m.reference = Some("ref".to_string());
    assert!(!TokenList::verify_account_is_token_callback(Some(1), Some(m.clone())));
    assert!(!TokenList::verify_account_is_token_callback(None, Some(m)));
    let mut h = metadata();
    h.reference_hash = Some(vec![0u8; 32]);
    assert!(!TokenList::verify_account_is_token_callback(Some(1), Some(h)));
}

#[test]
fn verification_rejects_hash_of_wrong_length() {
    for len in [0usize, 31, 33, 64] {
        let mut m = metadata();
        m.reference = Some("ref".to_string());
        m.reference_hash = Some(vec![1u8; len]);
        assert!(!m.is_valid());
        assert!(!TokenList::verify_account_is_token_callback(Some(1), Some(m)));
    }
}

#[test]
fn add_token_asks_for_verification_of_new_account() {
    let list = TokenList::new();
    assert_eq!(
        list.add_token("wrap.testnet".to_string(), "alice.testnet".to_string()),
        Dispatch::Verify(vec![request("wrap.testnet", "alice.testnet")])
    );
}

#[test]
fn add_token_twice_is_a_no_op() {
    let mut list = TokenList::new();
    assert!(list.add_token_to_list_callback(Some(true), "a.near".to_string()));
    assert_eq!(list.add_token("a.near".to_string(), "bob.near".to_string()), Dispatch::Value(false));
    assert_eq!(list.get_tokens(0, 10), vec!["a.near".to_string()]);
    assert_eq!(list.len(), 1);
    assert!(list.contains(&"a.near".to_string()));
    assert!(!list.contains(&"b.near".to_string()));
}

#[test]
fn failed_verification_leaves_registry_unchanged() {
    let mut list = TokenList::new();
    assert!(!list.add_token_to_list_callback(None, "a.near".to_string()));
    assert!(!list.add_token_to_list_callback(Some(false), "b.near".to_string()));
    assert!(list.get_tokens(0, 10).is_empty());
    assert!(list.add_token_to_list_callback(Some(true), "c.near".to_string()));
    assert!(!list.add_token_to_list_callback(Some(true), "c.near".to_string()));
    assert_eq!(list.get_tokens(0, 10), vec!["c.near".to_string()]);
}

#[test]
fn add_tokens_refuses_empty_batch() {
    let list = TokenList::new();
    assert_eq!(list.add_tokens(vec![], "bob.near".to_string()), Err(AddTokensError::NoTokensProvided));
}

#[test]
fn add_tokens_verifies_each_distinct_identifier_once() {
    let list = TokenList::new();
    let batch = vec!["a.near".to_string(), "a.near".to_string(), "b.near".to_string()];
    assert_eq!(
        list.add_tokens(batch, "bob.near".to_string()),
        Ok(Dispatch::Verify(vec![request("a.near", "bob.near"), request("b.near", "bob.near")]))
    );
}

#[test]
fn add_tokens_skips_admitted_accounts() {
    let mut list = TokenList::new();
    enlist(&mut list, "a.near");
    let batch = vec!["a.near".to_string(), "c.near".to_string(), "a.near".to_string()];
    assert_eq!(
        list.add_tokens(batch, "bob.near".to_string()),
        Ok(Dispatch::Verify(vec![request("c.near", "bob.near")]))
    );
    assert_eq!(
        list.add_tokens(vec!["a.near".to_string(), "a.near".to_string()], "bob.near".to_string()),
        Ok(Dispatch::Value(0))
    );
}

#[test]
fn add_tokens_callback_counts_admissions() {
    assert_eq!(TokenList::add_tokens_callback(&vec![true, false, true]), 2);
    assert_eq!(TokenList::add_tokens_callback(&vec![]), 0);
    assert_eq!(TokenList::add_tokens_callback(&vec![false, false]), 0);
}

#[test]
fn batch_accepts_no_more_than_it_verifies() {
    let mut list = TokenList::new();
    enlist(&mut list, "x.near");
    let batch: Vec<String> =
        ["x.near", "y.near", "y.near", "z.near"].iter().map(|s| s.to_string()).collect();
    let reqs = match list.add_tokens(batch, "bob.near".to_string()) {
        Ok(Dispatch::Verify(reqs)) => reqs,
        other => panic!("unexpected {:?}", other),
    };
    assert_eq!(reqs.len(), 2);
    let outcomes: Vec<bool> = reqs
        .iter()
        .map(|q| list.add_token_to_list_callback(Some(true), q.token.clone()))
        .collect();
    let accepted = TokenList::add_tokens_callback(&outcomes);
    assert_eq!(accepted, 2);
    assert!(accepted as usize <= reqs.len());
    assert_eq!(list.get_tokens(0, 10).len(), 3);
}

#[test]
fn registry_scenario() {
    let mut list = TokenList::new();
    assert_eq!(list.add_tokens(vec![], "bob.near".to_string()), Err(AddTokensError::NoTokensProvided));
    let reqs = match list.add_tokens(vec!["a.near".to_string(), "a.near".to_string()], "bob.near".to_string()) {
        Ok(Dispatch::Verify(reqs)) => reqs,
        other => panic!("unexpected {:?}", other),
    };
    assert_eq!(reqs, vec![request("a.near", "bob.near")]);
    let verified = TokenList::verify_account_is_token_callback(Some(10), Some(metadata()));
    let admitted = list.add_token_to_list_callback(Some(verified), reqs[0].token.clone());
    assert_eq!(TokenList::add_tokens_callback(&vec![admitted]), 1);
    assert_eq!(list.add_token("a.near".to_string(), "bob.near".to_string()), Dispatch::Value(false));
    assert_eq!(list.get_tokens(0, 10), vec!["a.near".to_string()]);
}

#[test]
fn dispatch_token_follows_the_membership_answer() {
    assert_eq!(
        TokenList::dispatch_token(true, "a.near".to_string(), "bob.near".to_string()),
        Dispatch::Value(false)
    );
    assert_eq!(
        TokenList::dispatch_token(false, "a.near".to_string(), "bob.near".to_string()),
        Dispatch::Verify(vec![request("a.near", "bob.near")])
    );
}

#[test]
fn dispatch_tokens_follows_the_membership_answers() {
    let c = |t: &str, listed: bool| (t.to_string(), listed);
    assert_eq!(
        TokenList::dispatch_tokens(vec![], "bob.near".to_string()),
        Err(AddTokensError::NoTokensProvided)
    );
    assert_eq!(
        TokenList::dispatch_tokens(
            vec![c("a.near", false), c("a.near", false), c("b.near", true), c("c.near", false)],
            "bob.near".to_string()
        ),
        Ok(Dispatch::Verify(vec![request("a.near", "bob.near"), request("c.near", "bob.near")]))
    );
    assert_eq!(
        TokenList::dispatch_tokens(vec![c("b.near", true), c("b.near", false)], "bob.near".to_string()),
        Ok(Dispatch::Verify(vec![request("b.near", "bob.near")]))
    );
    assert_eq!(
        TokenList::dispatch_tokens(vec![c("b.near", true), c("b.near", true)], "bob.near".to_string()),
        Ok(Dispatch::Value(0))
    );
}

#[test]
fn registries_under_one_prefix_share_membership() {
    {
        let mut first = TokenList::new();
        assert!(enlist(&mut first, "a.near"));
    }
    let mut second = TokenList::new();
    assert!(second.get_tokens(0, 10).is_empty());
    assert!(second.contains(&"a.near".to_string()));
    assert_eq!(second.add_token("a.near".to_string(), "bob.near".to_string()), Dispatch::Value(false));
    assert!(!second.add_token_to_list_callback(Some(true), "a.near".to_string()));
    assert!(second.get_tokens(0, 10).is_empty());
}
