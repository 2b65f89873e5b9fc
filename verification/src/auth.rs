//! How servers and the scheduler prove who they are to each other.

use base64::Engine;
use vstd::prelude::*;
use vstd::string::StringExecFns;

use crate::dist::ServerId;
use crate::text::{is_first, split_at_space};

verus! {

/// The token of servers when authentication is switched off.
pub const INSECURE_DIST_SERVER_TOKEN: &'static str = "dangerously_insecure_server";

/// The size of a secret key for tokens that are signed with HMAC-SHA-256.
pub const HS256_KEY_BYTES: usize = 32;

/// The token of the server at address `addr`.
pub open spec fn server_token(addr: Seq<char>, auth_token: Seq<char>) -> Seq<char> {
    addr + seq![' '] + auth_token
}

/// The part of a token that names the server: all up to the first space.
pub open spec fn addr_part(token: Seq<char>) -> Seq<char> {
    if token.contains(' ') {
        token.subrange(0, choose|i: int| is_first(token, ' ', i))
    } else {
        token
    }
}

/// The part of a token that is secret: all after the first space, if there is one.
pub open spec fn secret_part(token: Seq<char>) -> Option<Seq<char>> {
    if token.contains(' ') {
        Some(token.subrange((choose|i: int| is_first(token, ' ', i)) + 1, token.len() as int))
    } else {
        None
    }
}

/// There is at most one first space.
proof fn lemma_first_space(token: Seq<char>, i: int)
    requires
        is_first(token, ' ', i),
    ensures
        token.contains(' '),
        i == choose|j: int| is_first(token, ' ', j),
{
    let j = choose|j: int| is_first(token, ' ', j);
    assert(is_first(token, ' ', j));
    assert(token[i] == ' ');
    assert(token[j] == ' ');
}

/// The server that a token stands for to one who knows `auth_token`. `server_addr` is what
/// the part of the token that names the server reads as.
pub open spec fn server_behind(
    token: Seq<char>,
    auth_token: Seq<char>,
    server_addr: Option<ServerId>,
) -> Option<ServerId> {
    if secret_part(token) == Some(auth_token) {
        server_addr
    } else {
        None
    }
}

/// The token of the server at address `addr`.
pub fn create_server_token(addr: &str, auth_token: &str) -> (r: String)
    ensures
        r@ == server_token(addr@, auth_token@),
{
    let mut token = addr.to_owned();
    token.append(" ");
    token.append(auth_token);
    proof {
        reveal_strlit(" ");
        assert(" "@ =~= seq![' ']);
    }
    token
}

/// The part of a token that names the server, to be read as an address.
pub fn server_token_addr(server_token: &str) -> (r: String)
    ensures
        r@ == addr_part(server_token@),
{
    let parts = split_at_space(server_token);
    proof {
        if parts.1 is Some {
            lemma_first_space(server_token@, parts.0@.len() as int);
        }
    }
    parts.0
}

/// The server that a token stands for, if it holds the right secret. `server_addr`
/// is what the part of the token that names the server reads as.
pub fn check_server_token(server_token: &str, auth_token: &str, server_addr: Option<ServerId>) -> (r:
    Option<ServerId>)
    ensures
        r == server_behind(server_token@, auth_token@, server_addr),
        r == (if secret_part(server_token@) == Some(auth_token@) {
            server_addr
        } else {
            None
        }),
{
    let parts = split_at_space(server_token);
    proof {
        if parts.1 is Some {
            lemma_first_space(server_token@, parts.0@.len() as int);
        }
    }
    match parts.1 {
        Some(secret) => if secret == auth_token.to_owned() {
            server_addr
        } else {
            None
        },
        None => None,
    }
}

/// The token of a server gives back its address and its secret.
pub proof fn law_a_server_token_splits_back(addr: Seq<char>, auth_token: Seq<char>)
    requires
        !addr.contains(' '),
    ensures
        addr_part(server_token(addr, auth_token)) == addr,
        secret_part(server_token(addr, auth_token)) == Some(auth_token),
{
    let token = server_token(addr, auth_token);
    let i = addr.len() as int;
    assert forall|j: int| 0 <= j < i implies token[j] != ' ' by {
        assert(addr.contains(addr[j]));
    }
    assert(is_first(token, ' ', i));
    lemma_first_space(token, i);
    assert(token.subrange(0, i) =~= addr);
    assert(token.subrange(i + 1, token.len() as int) =~= auth_token);
}

/// A token is taken by the one that knows the same secret, and by no other.
pub proof fn law_a_server_token_is_taken_for_its_secret(
    addr: Seq<char>,
    auth_token: Seq<char>,
    other: Seq<char>,
)
    requires
        !addr.contains(' '),
    ensures
        secret_part(server_token(addr, auth_token)) == Some(other) <==> auth_token == other,
{
    law_a_server_token_splits_back(addr, auth_token);
}

/// A token is an address, a space and a secret. It stands for the server at that address to
/// one who knows the secret, and for none to anybody else; text without a space stands for
/// none to anybody.
pub proof fn law_what_a_server_token_stands_for(
    addr: Seq<char>,
    secret: Seq<char>,
    other: Seq<char>,
    server_addr: Option<ServerId>,
)
    requires
        !addr.contains(' '),
    ensures
        server_token(addr, secret) == addr.push(' ') + secret,
        addr_part(addr.push(' ') + secret) == addr,
        server_behind(addr.push(' ') + secret, secret, server_addr) == server_addr,
        other != secret ==> server_behind(addr.push(' ') + secret, other, server_addr) is None,
        addr_part(addr) == addr,
        server_behind(addr, other, server_addr) is None,
{
    assert(server_token(addr, secret) =~= addr.push(' ') + secret);
    law_a_server_token_splits_back(addr, secret);
}

/// The token of servers when authentication is switched off is known to everybody.
pub proof fn law_the_open_token_is_fixed()
    ensures
        INSECURE_DIST_SERVER_TOKEN@ == "dangerously_insecure_server"@,
{
}

/// What is behind base64 text in the URL-safe alphabet without padding, if it is
/// such text: what `decode` of the `base64` crate returns.
pub uninterp spec fn base64_bytes(text: Seq<char>) -> Option<Seq<u8>>;

/// Base64 text in the URL-safe alphabet without padding: what `encode` of the
/// `base64` crate returns.
pub uninterp spec fn base64_text(bytes: Seq<u8>) -> Seq<char>;

/// Why base64 text cannot be decoded, as the `base64` crate says it.
#[verifier::external_type_specification]
#[verifier::external_body]
pub struct ExDecodeError(base64::DecodeError);

/// `Engine::decode` of the `base64` crate, with the engine `URL_SAFE_NO_PAD`. What it
/// returns has a name, and encoding the bytes it gives yields the text again: it
/// takes neither padding nor stray bits at the end.
#[verifier::external_body]
fn decode_base64(text: &str) -> (r: Result<Vec<u8>, base64::DecodeError>)
    ensures
        match r {
            Ok(bytes) => base64_bytes(text@) == Some(bytes@) && base64_text(bytes@) == text@,
            Err(_) => base64_bytes(text@) is None,
        },
{
    base64::engine::general_purpose::URL_SAFE_NO_PAD.decode(text)
}

/// `Engine::encode` of the `base64` crate, with the engine `URL_SAFE_NO_PAD`. What it
/// returns has a name, and decoding it yields the bytes again. The text is four
/// thirds as long as the bytes and has to fit in memory.
#[verifier::external_body]
fn encode_base64(bytes: &[u8]) -> (r: String)
    requires
        bytes@.len() / 3 * 4 + 4 <= isize::MAX,
    ensures
        r@ == base64_text(bytes@),
        base64_bytes(r@) == Some(bytes@),
{
    base64::engine::general_purpose::URL_SAFE_NO_PAD.encode(bytes)
}

/// Why a secret key is not taken.
#[derive(Clone, Copy, Debug, PartialEq, Eq, Structural)]
pub enum SecretKeyError {
    /// It is not base64.
    InvalidBase64,
    /// It does not have the right size.
    WrongSize,
}

/// Whether `decoded` is a secret key for HMAC-SHA-256, and why not.
pub open spec fn key_of(decoded: Option<Seq<u8>>) -> Result<Seq<u8>, SecretKeyError> {
    match decoded {
        Some(bytes) => if bytes.len() == HS256_KEY_BYTES {
            Ok(bytes)
        } else {
            Err(SecretKeyError::WrongSize)
        },
        None => Err(SecretKeyError::InvalidBase64),
    }
}

/// A secret key is thirty-two bytes, and every thirty-two bytes are one.
pub proof fn law_which_keys_are_taken(decoded: Option<Seq<u8>>)
    ensures
        key_of(decoded) is Ok <==> decoded is Some && decoded->0.len() == 32,
        key_of(decoded) matches Ok(key) ==> decoded == Some(key),
        key_of(decoded) == Err::<Seq<u8>, SecretKeyError>(SecretKeyError::InvalidBase64)
            <==> decoded is None,
        key_of(decoded) == Err::<Seq<u8>, SecretKeyError>(SecretKeyError::WrongSize) <==> decoded
            is Some && decoded->0.len() != 32,
{
}

/// The bytes behind base64 text.
pub fn decode_secret(text: &str) -> (r: Result<Vec<u8>, SecretKeyError>)
    ensures
        match base64_bytes(text@) {
            Some(bytes) => r matches Ok(b) && b@ == bytes,
            None => r == Err::<Vec<u8>, SecretKeyError>(SecretKeyError::InvalidBase64),
        },
{
    match decode_base64(text) {
        Ok(bytes) => Ok(bytes),
        Err(_) => Err(SecretKeyError::InvalidBase64),
    }
}

/// Bytes as base64 text, to be copied around. Thirty-two of them are taken as a
/// secret key again.
pub fn encode_secret(bytes: &[u8]) -> (r: String)
    requires
        bytes@.len() / 3 * 4 + 4 <= isize::MAX,
    ensures
        r@ == base64_text(bytes@),
        base64_bytes(r@) == Some(bytes@),
        bytes@.len() == HS256_KEY_BYTES ==> key_of(base64_bytes(r@)) == Ok::<
            Seq<u8>,
            SecretKeyError,
        >(bytes@),
{
    encode_base64(bytes)
}

/// The secret key for HMAC-SHA-256, from what was decoded.
pub open spec fn sized(decoded: Result<Vec<u8>, SecretKeyError>) -> Result<
    Vec<u8>,
    SecretKeyError,
> {
    match decoded {
        Ok(bytes) => if bytes@.len() == HS256_KEY_BYTES {
            Ok(bytes)
        } else {
            Err(SecretKeyError::WrongSize)
        },
        Err(error) => Err(error),
    }
}

/// Decoded bytes are kept as they are exactly if there are thirty-two of them, and why text
/// could not be decoded is passed on.
pub proof fn law_which_decoded_bytes_are_kept(decoded: Result<Vec<u8>, SecretKeyError>)
    ensures
        decoded is Ok && decoded->Ok_0@.len() == 32 ==> sized(decoded) == decoded,
        decoded is Ok && decoded->Ok_0@.len() != 32 ==> sized(decoded) == Err::<
            Vec<u8>,
            SecretKeyError,
        >(SecretKeyError::WrongSize),
        decoded is Err ==> sized(decoded) == decoded,
{
}

/// The secret key for HMAC-SHA-256, from what was decoded.
pub fn sized_key(decoded: Result<Vec<u8>, SecretKeyError>) -> (r: Result<Vec<u8>, SecretKeyError>)
    ensures
        r == sized(decoded),
        r == (match decoded {
            Ok(bytes) => if bytes@.len() == HS256_KEY_BYTES {
                Ok(bytes)
            } else {
                Err(SecretKeyError::WrongSize)
            },
            Err(error) => Err(error),
        }),
{
    match decoded {
        Ok(bytes) => if bytes.len() != HS256_KEY_BYTES {
            Err(SecretKeyError::WrongSize)
        } else {
            Ok(bytes)
        },
        Err(error) => Err(error),
    }
}

/// How the scheduler is set up to tell servers.
#[derive(Debug, PartialEq, Eq)]
pub enum ServerAuth {
    Insecure,
    Token { token: String },
    /// Tokens are signed with the key behind this base64 text.
    JwtHS256 { secret_key: String },
}

/// How the scheduler tells servers.
#[derive(Debug, PartialEq, Eq)]
pub enum ServerAuthCheck {
    /// By a secret, see `check_server_token`.
    Token { token: String },
    /// By a signature.
    JwtHS256 { secret_key: Vec<u8> },
}

/// Whether a scheduler that is set up with `auth` tells servers by `check`.
pub open spec fn tells_servers_by(
    auth: ServerAuth,
    check: Result<ServerAuthCheck, SecretKeyError>,
) -> bool {
    match auth {
        ServerAuth::Insecure => check matches Ok(ServerAuthCheck::Token { token }) && token@
            == INSECURE_DIST_SERVER_TOKEN@,
        ServerAuth::Token { token } => check == Ok::<ServerAuthCheck, SecretKeyError>(
            ServerAuthCheck::Token { token },
        ),
        ServerAuth::JwtHS256 { secret_key } => match key_of(base64_bytes(secret_key@)) {
            Ok(key) => check matches Ok(ServerAuthCheck::JwtHS256 { secret_key }) && secret_key@
                == key,
            Err(error) => check == Err::<ServerAuthCheck, SecretKeyError>(error),
        },
    }
}

/// How the scheduler tells servers, from its set-up.
pub fn server_auth_check(auth: ServerAuth) -> (r: Result<ServerAuthCheck, SecretKeyError>)
    ensures
        tells_servers_by(auth, r),
        match auth {
            ServerAuth::Insecure => r matches Ok(ServerAuthCheck::Token { token }) && token@
                == INSECURE_DIST_SERVER_TOKEN@,
            ServerAuth::Token { token } => r == Ok::<ServerAuthCheck, SecretKeyError>(
                ServerAuthCheck::Token { token },
            ),
            ServerAuth::JwtHS256 { secret_key } => match key_of(base64_bytes(secret_key@)) {
                Ok(key) => r matches Ok(ServerAuthCheck::JwtHS256 { secret_key }) && secret_key@
                    == key,
                Err(error) => r == Err::<ServerAuthCheck, SecretKeyError>(error),
            },
        },
{
    match auth {
        ServerAuth::Insecure => Ok(
            ServerAuthCheck::Token { token: INSECURE_DIST_SERVER_TOKEN.to_owned() },
        ),
        ServerAuth::Token { token } => Ok(ServerAuthCheck::Token { token }),
        ServerAuth::JwtHS256 { secret_key } => match sized_key(
            decode_secret(secret_key.as_str()),
        ) {
            Ok(secret_key) => Ok(ServerAuthCheck::JwtHS256 { secret_key }),
            Err(error) => Err(error),
        },
    }
}

/// How the scheduler is set up to tell clients.
#[derive(Debug, PartialEq, Eq)]
pub enum ClientAuth {
    Insecure,
    Token { token: String },
    /// Tokens are signed with one of the keys published at an address.
    JwtValidate { audience: String, issuer: String, jwks_url: String },
    /// Tokens are shown to a service, whose answers are kept for a while.
    ProxyToken { url: String, cache_secs: Option<u64> },
}

/// How the scheduler tells clients.
#[derive(Debug, PartialEq, Eq)]
pub enum ClientAuthCheck {
    /// By a token that every client has.
    Equal { token: String },
    /// By a signature.
    ValidJwt { audience: String, issuer: String, jwks_url: String },
    /// By the answer of a service.
    Proxy { url: String, cache_secs: Option<u64> },
}

/// Whether a scheduler that is set up with `auth` tells clients by `check`, where clients
/// have `insecure_token` when authentication is switched off.
pub open spec fn tells_clients_by(
    auth: ClientAuth,
    insecure_token: Seq<char>,
    check: ClientAuthCheck,
) -> bool {
    match auth {
        ClientAuth::Insecure => check matches ClientAuthCheck::Equal { token } && token@
            == insecure_token,
        ClientAuth::Token { token } => check == (ClientAuthCheck::Equal { token }),
        ClientAuth::JwtValidate { audience, issuer, jwks_url } => check == (
        ClientAuthCheck::ValidJwt { audience, issuer, jwks_url }),
        ClientAuth::ProxyToken { url, cache_secs } => check == (ClientAuthCheck::Proxy {
            url,
            cache_secs,
        }),
    }
}

/// How the scheduler tells clients, from its set-up. Clients have `insecure_token` when
/// authentication is switched off.
pub fn client_auth_check(auth: ClientAuth, insecure_token: &str) -> (r: ClientAuthCheck)
    ensures
        tells_clients_by(auth, insecure_token@, r),
        match auth {
            ClientAuth::Insecure => r matches ClientAuthCheck::Equal { token } && token@
                == insecure_token@,
            ClientAuth::Token { token } => r == (ClientAuthCheck::Equal { token }),
            ClientAuth::JwtValidate { audience, issuer, jwks_url } => r == (
            ClientAuthCheck::ValidJwt { audience, issuer, jwks_url }),
            ClientAuth::ProxyToken { url, cache_secs } => r == (ClientAuthCheck::Proxy {
                url,
                cache_secs,
            }),
        },
{
    match auth {
        ClientAuth::Insecure => ClientAuthCheck::Equal { token: insecure_token.to_owned() },
        ClientAuth::Token { token } => ClientAuthCheck::Equal { token },
        ClientAuth::JwtValidate { audience, issuer, jwks_url } => ClientAuthCheck::ValidJwt {
            audience,
            issuer,
            jwks_url,
        },
        ClientAuth::ProxyToken { url, cache_secs } => ClientAuthCheck::Proxy { url, cache_secs },
    }
}

/// How a server is set up to prove who it is.
#[derive(Debug, PartialEq, Eq)]
pub enum SchedulerAuth {
    Insecure,
    Token { token: String },
    /// A signed token.
    JwtToken { token: String },
}

/// Why a server cannot prove who it is.
#[derive(Clone, Copy, Debug, PartialEq, Eq, Structural)]
pub enum SchedulerAuthError {
    /// The signed token cannot be read.
    Unreadable,
    /// The signed token is another server's.
    OtherServer { token_server_id: ServerId, server_id: ServerId },
}

/// Whether server `server_id` at address `addr`, which is set up with `auth`, proves who it is
/// by `proved`, where a signed token was issued to `token_server_id`.
pub open spec fn proves_itself_by(
    auth: SchedulerAuth,
    addr: Seq<char>,
    server_id: ServerId,
    token_server_id: Option<ServerId>,
    proved: Result<String, SchedulerAuthError>,
) -> bool {
    match auth {
        SchedulerAuth::Insecure => proved matches Ok(token) && token@ == server_token(
            addr,
            INSECURE_DIST_SERVER_TOKEN@,
        ),
        SchedulerAuth::Token { token } => proved matches Ok(t) && t@ == server_token(addr, token@),
        SchedulerAuth::JwtToken { token } => proved == (match token_server_id {
            Some(id) => if id == server_id {
                Ok(token)
            } else {
                Err(SchedulerAuthError::OtherServer { token_server_id: id, server_id })
            },
            None => Err(SchedulerAuthError::Unreadable),
        }),
    }
}

/// The token by which server `server_id` at address `addr` proves who it is.
/// `token_server_id` is the server that a signed token was issued to, if it can be
/// read.
pub fn scheduler_token(
    auth: SchedulerAuth,
    addr: &str,
    server_id: ServerId,
    token_server_id: Option<ServerId>,
) -> (r: Result<String, SchedulerAuthError>)
    ensures
        proves_itself_by(auth, addr@, server_id, token_server_id, r),
        match auth {
            SchedulerAuth::Insecure => r matches Ok(token) && token@ == server_token(
                addr@,
                INSECURE_DIST_SERVER_TOKEN@,
            ),
            SchedulerAuth::Token { token } => r matches Ok(t) && t@ == server_token(
                addr@,
                token@,
            ),
            SchedulerAuth::JwtToken { token } => r == (match token_server_id {
                Some(id) => if id == server_id {
                    Ok(token)
                } else {
                    Err(SchedulerAuthError::OtherServer { token_server_id: id, server_id })
                },
                None => Err(SchedulerAuthError::Unreadable),
            }),
        },
{
    match auth {
        SchedulerAuth::Insecure => Ok(create_server_token(addr, INSECURE_DIST_SERVER_TOKEN)),
        SchedulerAuth::Token { token } => Ok(create_server_token(addr, token.as_str())),
        SchedulerAuth::JwtToken { token } => match token_server_id {
            Some(id) => if id != server_id {
                Err(SchedulerAuthError::OtherServer { token_server_id: id, server_id })
            } else {
                Ok(token)
            },
            None => Err(SchedulerAuthError::Unreadable),
        },
    }
}

/// A scheduler tells servers by the secret it is set up with, or by the one that everybody
/// knows; by a signature it does exactly if its key is the base64 text of thirty-two bytes,
/// and then with those bytes.
pub proof fn law_how_servers_are_told(
    auth: ServerAuth,
    check: Result<ServerAuthCheck, SecretKeyError>,
)
    requires
        tells_servers_by(auth, check),
    ensures
        auth is Insecure ==> (check matches Ok(ServerAuthCheck::Token { token }) && token@
            == "dangerously_insecure_server"@),
        auth matches ServerAuth::Token { token: set } ==> (check matches Ok(
            ServerAuthCheck::Token { token },
        ) && token == set),
        auth matches ServerAuth::JwtHS256 { secret_key: text } ==> {
            let bytes = base64_bytes(text@);
            &&& bytes is Some && bytes->0.len() == 32 ==> (check matches Ok(
                ServerAuthCheck::JwtHS256 { secret_key },
            ) && secret_key@ == bytes->0)
            &&& bytes is Some && bytes->0.len() != 32 ==> check == Err::<
                ServerAuthCheck,
                SecretKeyError,
            >(SecretKeyError::WrongSize)
            &&& bytes is None ==> check == Err::<ServerAuthCheck, SecretKeyError>(
                SecretKeyError::InvalidBase64,
            )
        },
{
}

/// A scheduler tells clients by the token it is set up with, or by the one that clients have
/// when authentication is switched off; what it is set up with to check signatures or to ask
/// a service is kept as it is.
pub proof fn law_how_clients_are_told(
    auth: ClientAuth,
    insecure_token: Seq<char>,
    check: ClientAuthCheck,
)
    requires
        tells_clients_by(auth, insecure_token, check),
    ensures
        auth is Insecure ==> check is Equal && check->token@ == insecure_token,
        auth is Token ==> check is Equal && check->token == auth->token,
        auth is JwtValidate ==> check is ValidJwt && check->audience == auth->audience
            && check->issuer == auth->issuer && check->jwks_url == auth->jwks_url,
        auth is ProxyToken ==> check is Proxy && check->url == auth->url && check->cache_secs
            == auth->cache_secs,
{
}

/// A server proves who it is by its address and a secret, by one that everybody knows, or by
/// a signed token that was issued to itself. A token that was issued to another server or
/// that cannot be read is an error.
pub proof fn law_how_a_server_proves_itself(
    auth: SchedulerAuth,
    addr: Seq<char>,
    server_id: ServerId,
    token_server_id: Option<ServerId>,
    proved: Result<String, SchedulerAuthError>,
)
    requires
        proves_itself_by(auth, addr, server_id, token_server_id, proved),
    ensures
        auth is Insecure ==> (proved matches Ok(token) && token@ == addr.push(' ')
            + "dangerously_insecure_server"@),
        auth matches SchedulerAuth::Token { token: secret } ==> (proved matches Ok(token) && token@
            == addr.push(' ') + secret@),
        auth matches SchedulerAuth::JwtToken { token } ==> {
            &&& token_server_id == Some(server_id) ==> proved == Ok::<String, SchedulerAuthError>(
                token,
            )
            &&& token_server_id is Some && token_server_id->0 != server_id ==> proved == Err::<
                String,
                SchedulerAuthError,
            >(
                SchedulerAuthError::OtherServer {
                    token_server_id: token_server_id->0,
                    server_id,
                },
            )
            &&& token_server_id is None ==> proved == Err::<String, SchedulerAuthError>(
                SchedulerAuthError::Unreadable,
            )
        },
{
    assert(server_token(addr, INSECURE_DIST_SERVER_TOKEN@) =~= addr.push(' ')
        + "dangerously_insecure_server"@);
    if auth is Token {
        assert(server_token(addr, auth->Token_token@) =~= addr.push(' ') + auth->Token_token@);
    }
}

/// A scheduler that tells servers by a secret knows a server that has the same secret, as the
/// one at its address, and does not know one that has another.
pub proof fn law_a_server_with_the_same_secret_is_known(
    secret: String,
    other: String,
    addr: Seq<char>,
    server_id: ServerId,
    check: Result<ServerAuthCheck, SecretKeyError>,
    proved: Result<String, SchedulerAuthError>,
)
    requires
        !addr.contains(' '),
        tells_servers_by(ServerAuth::Token { token: secret }, check),
        proves_itself_by(SchedulerAuth::Token { token: other }, addr, server_id, None, proved),
    ensures
        check is Ok,
        check->Ok_0 is Token,
        proved is Ok,
        addr_part(proved->Ok_0@) == addr,
        server_behind(proved->Ok_0@, check->Ok_0->token@, Some(server_id)) == (if other@
            == secret@ {
            Some(server_id)
        } else {
            None
        }),
{
    law_a_server_token_splits_back(addr, other@);
}

} // verus!
