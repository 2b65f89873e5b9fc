use sccache_dist::auth::{
    check_server_token, client_auth_check, create_server_token, decode_secret, encode_secret,
    scheduler_token, server_auth_check, server_token_addr, sized_key, ClientAuth, ClientAuthCheck,
    SchedulerAuth, SchedulerAuthError, SecretKeyError, ServerAuth, ServerAuthCheck,
    INSECURE_DIST_SERVER_TOKEN,
};
use sccache_dist::dist::ServerId;
use sccache_dist::text::{decimal, split_at_space};

const ID: ServerId = ServerId::V4 { ip: 0x0a00_0001, port: 10501 };
const OTHER: ServerId = ServerId::V4 { ip: 0x0a00_0002, port: 10501 };

#[test]
fn tokens_hold_address_and_secret() {
    let token = create_server_token("10.0.0.1:10501", "my secret");
    assert_eq!(token, "10.0.0.1:10501 my secret");
    assert_eq!(server_token_addr(&token), "10.0.0.1:10501");
    assert_eq!(check_server_token(&token, "my secret", Some(ID)), Some(ID));
}

#[test]
fn tokens_are_taken_for_their_secret_only() {
    let token = create_server_token("10.0.0.1:10501", "a");
    assert_eq!(check_server_token(&token, "b", Some(ID)), None);
    assert_eq!(check_server_token(&token, "", Some(ID)), None);
    assert_eq!(check_server_token(&token, "a", None), None);
    assert_eq!(check_server_token("10.0.0.1:10501", "", Some(ID)), None);
    assert_eq!(check_server_token("10.0.0.1:10501 ", "", Some(ID)), Some(ID));
    assert_eq!(check_server_token("x  a", " a", Some(ID)), Some(ID));
}

#[test]
fn text_is_split_at_the_first_space() {
    assert_eq!(split_at_space("a b c"), ("a".to_owned(), Some("b c".to_owned())));
    assert_eq!(split_at_space("abc"), ("abc".to_owned(), None));
    assert_eq!(split_at_space(" "), (String::new(), Some(String::new())));
    assert_eq!(
        split_at_space("\u{e9} \u{1f600}"),
        ("\u{e9}".to_owned(), Some("\u{1f600}".to_owned()))
    );
}

#[test]
fn numbers_are_written_in_decimal() {
    for n in [0, 9, 10, 100, 1_234_567_890, u64::MAX] {
        assert_eq!(decimal(n), n.to_string());
    }
}

#[test]
fn secrets_are_url_safe_base64_without_padding() {
    assert_eq!(encode_secret(&[0xfb, 0xff, 0xfe, 0x01]), "-__-AQ");
    assert_eq!(decode_secret("-__-AQ"), Ok(vec![0xfb, 0xff, 0xfe, 0x01]));
    assert_eq!(encode_secret(&[]), "");
    assert_eq!(decode_secret(""), Ok(vec![]));
    for text in ["-__-AQ==", "+//+AQ", "-__-A", "-__-AR", "-__ AQ", "\u{e9}AAA"] {
        assert_eq!(decode_secret(text), Err(SecretKeyError::InvalidBase64), "{text}");
    }
}

#[test]
fn a_generated_key_is_taken() {
    let key: Vec<u8> = (0u8..32).map(|b| b.wrapping_mul(37)).collect();
    let text = encode_secret(&key);
    assert_eq!(text.len(), 43);
    assert_eq!(
        server_auth_check(ServerAuth::JwtHS256 { secret_key: text }),
        Ok(ServerAuthCheck::JwtHS256 { secret_key: key })
    );
}

#[test]
fn keys_have_to_be_base64_of_the_right_size() {
    assert_eq!(
        server_auth_check(ServerAuth::JwtHS256 { secret_key: "not base64!".to_owned() }),
        Err(SecretKeyError::InvalidBase64)
    );
    for size in [0, 31, 33] {
        let secret_key = encode_secret(&vec![7u8; size]);
        assert_eq!(
            server_auth_check(ServerAuth::JwtHS256 { secret_key }),
            Err(SecretKeyError::WrongSize)
        );
    }
    assert_eq!(sized_key(Ok(vec![1; 32])), Ok(vec![1; 32]));
    assert_eq!(sized_key(Ok(vec![1; 31])), Err(SecretKeyError::WrongSize));
    assert_eq!(
        sized_key(Err(SecretKeyError::InvalidBase64)),
        Err(SecretKeyError::InvalidBase64)
    );
}

#[test]
fn servers_are_told_by_a_secret() {
    assert_eq!(INSECURE_DIST_SERVER_TOKEN, "dangerously_insecure_server");
    assert_eq!(
        server_auth_check(ServerAuth::Insecure),
        Ok(ServerAuthCheck::Token { token: "dangerously_insecure_server".to_owned() })
    );
    assert_eq!(
        server_auth_check(ServerAuth::Token { token: "t".to_owned() }),
        Ok(ServerAuthCheck::Token { token: "t".to_owned() })
    );
}

#[test]
fn a_server_proves_who_it_is() {
    let addr = "10.0.0.1:10501";
    assert_eq!(
        scheduler_token(SchedulerAuth::Insecure, addr, ID, None),
        Ok("10.0.0.1:10501 dangerously_insecure_server".to_owned())
    );
    let token = SchedulerAuth::Token { token: "t".to_owned() };
    assert_eq!(scheduler_token(token, addr, ID, None), Ok("10.0.0.1:10501 t".to_owned()));
    let signed = || SchedulerAuth::JwtToken { token: "a.b.c".to_owned() };
    assert_eq!(scheduler_token(signed(), addr, ID, Some(ID)), Ok("a.b.c".to_owned()));
    assert_eq!(
        scheduler_token(signed(), addr, ID, Some(OTHER)),
        Err(SchedulerAuthError::OtherServer { token_server_id: OTHER, server_id: ID })
    );
    assert_eq!(
        scheduler_token(signed(), addr, ID, None),
        Err(SchedulerAuthError::Unreadable)
    );
}

#[test]
fn clients_are_told_as_set_up() {
    let s = |t: &str| t.to_owned();
    assert_eq!(
        client_auth_check(ClientAuth::Insecure, "open"),
        ClientAuthCheck::Equal { token: s("open") }
    );
    assert_eq!(
        client_auth_check(ClientAuth::Token { token: s("t") }, "open"),
        ClientAuthCheck::Equal { token: s("t") }
    );
    let jwt = ClientAuth::JwtValidate { audience: s("a"), issuer: s("i"), jwks_url: s("u") };
    assert_eq!(
        client_auth_check(jwt, "open"),
        ClientAuthCheck::ValidJwt { audience: s("a"), issuer: s("i"), jwks_url: s("u") }
    );
    let proxy = ClientAuth::ProxyToken { url: s("u"), cache_secs: Some(3) };
    assert_eq!(
        client_auth_check(proxy, "open"),
        ClientAuthCheck::Proxy { url: s("u"), cache_secs: Some(3) }
    );
}
