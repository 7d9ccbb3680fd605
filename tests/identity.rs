use matchmaking::discord::{
    generate_random_user_id, generate_state_code, spell, DiscordInfo, PendingSignIns,
    STATE_CODE_LENGTH, USER_ID_LENGTH,
};
use matchmaking::models::{expired_token_hashes, owner_if_unexpired, token_owner, StoredTimestampError, Token, UserId};

#[test]
fn token_hex_form() {
    let t = Token(vec![0x00, 0x0f, 0xab, 0xff]);
    assert_eq!(t.to_hex_string(), "000fabff");
    let back = Token::from_hex_string("000FabfF").unwrap();
    assert_eq!(back.0, vec![0x00, 0x0f, 0xab, 0xff]);
    assert!(Token::from_hex_string("abc").is_none());
    assert!(Token::from_hex_string("zz").is_none());
    assert_eq!(Token::from_hex_string("").unwrap().0, Vec::<u8>::new());
    assert_eq!(Token(vec![]).to_hex_string(), "");
}

#[test]
fn token_hex_round_trip() {
    let t = Token((0..=255u8).collect());
    let back = Token::from_hex_string(&t.to_hex_string()).unwrap();
    assert_eq!(back.0, t.0);
}

#[test]
fn token_hash_is_blake2b512() {
    let h = Token(vec![]).get_hash();
    assert_eq!(
        Token(h.0).to_hex_string(),
        "786a02f742015903c6c6fd852552d272912f4740e15847618a86e217f71f5419d25e1031afee585313896444934eb04b903a685b1448b755d56f701afe9be2ce"
    );
    assert_eq!(Token(vec![1, 2, 3]).get_hash().0.len(), 64);
}

#[test]
fn token_owner_respects_expiry() {
    let user = UserId("u1".to_string());
    assert!(token_owner(None, 0).unwrap().is_none());
    let stored = Some((user.clone(), "1970-01-01T00:00:10Z".to_string()));
    let r = token_owner(stored.clone(), 9_999_999_999).unwrap();
    assert_eq!(r.unwrap().0, "u1");
    assert!(token_owner(stored, 10_000_000_000).unwrap().is_none());
    let bad = Some((user.clone(), "yesterday".to_string()));
    assert_eq!(token_owner(bad, 0).unwrap_err(), StoredTimestampError::Invalid);
    assert!(owner_if_unexpired(user.clone(), 5, 4).is_some());
    assert!(owner_if_unexpired(user, 5, 5).is_none());
}

#[test]
fn expired_tokens_are_selected() {
    let rows = vec![
        (vec![1u8], "1970-01-01T00:00:01Z".to_string()),
        (vec![2u8], "2100-01-01T00:00:00Z".to_string()),
        (vec![3u8], "1970-01-01T00:00:02Z".to_string()),
    ];
    assert_eq!(expired_token_hashes(&rows, 2_000_000_000).unwrap(), vec![vec![1u8], vec![3u8]]);
    assert_eq!(expired_token_hashes(&rows, 0).unwrap(), Vec::<Vec<u8>>::new());
    let bad = vec![(vec![1u8], "not a time".to_string())];
    assert_eq!(expired_token_hashes(&bad, 0), Err(StoredTimestampError::Invalid));
}

#[test]
fn indices_spell_the_alphabet() {
    assert_eq!(spell(&vec![0, 25, 26, 51, 52, 61]), "azAZ09");
    assert_eq!(spell(&vec![]), "");
}

#[test]
fn random_identifiers_have_their_shape() {
    let id = generate_random_user_id(USER_ID_LENGTH);
    assert_eq!(id.0.chars().count(), 24);
    assert!(id.0.chars().all(|c| c.is_ascii_alphanumeric()));
    let code = generate_state_code(STATE_CODE_LENGTH);
    assert_eq!(code.get().len(), 32);
    assert!(code.get().chars().all(|c| c.is_ascii_alphabetic()));
}

#[test]
fn started_sign_ins_are_pending() {
    let mut pending = PendingSignIns::new();
    assert!(!pending.is_pending("abc"));
    let code = pending.start_auth().unwrap();
    assert!(pending.is_pending(code.get()));
    let other = pending.start_auth().unwrap();
    assert_ne!(code.get(), other.get());
    assert!(pending.is_pending(code.get()) && pending.is_pending(other.get()));
}

#[test]
fn discord_info_keeps_credentials() {
    let info = DiscordInfo::new("id".to_string(), "shh".to_string());
    assert_eq!(info.get_client_id(), "id");
    assert_eq!(info.get_client_secret(), "shh");
}

#[test]
fn authorize_query_is_form_encoded() {
    let info = DiscordInfo::new("123".to_string(), "shh".to_string());
    let code = generate_state_code(STATE_CODE_LENGTH);
    let q = matchmaking::discord::authorize_query(&info, "https://x.y", &code);
    assert_eq!(
        q,
        format!(
            "client_id=123&response_type=code&redirect_uri=https%3A%2F%2Fx.y%2Fauth%2Fproviders%2Fdiscord%2Fredirect&scope=identify&state={}",
            code.get()
        )
    );
}

#[test]
fn generated_tokens_are_random() {
    let a = Token::generate();
    let b = Token::generate();
    assert_eq!(a.0.len(), matchmaking::models::TOKEN_LENGTH);
    assert_eq!(a.0.len(), 512);
    assert_ne!(a.0, b.0);
    assert!(a.0.iter().any(|&x| x != 0));
}
