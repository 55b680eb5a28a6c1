//! OpenID Connect client: the authorization code flow with PKCE, as requests
//! to make and replies to read.

use crate::b64::{decode_url_safe, encode_url_safe};
use crate::crypto::{random_bytes, sha256};
use crate::json::JsonValue;
use crate::numbers::decimal_of;
use crate::record::{read_record, read_text_field};
use crate::text::{join2, lossy_text, pieces_of};
use crate::weburl::Url;
use vstd::prelude::*;

verus! {

/// What the provider says of itself.
#[derive(Debug, Clone)]
pub struct Discovery {
    pub issuer: String,
    pub authorization_endpoint: String,
    pub token_endpoint: String,
    pub userinfo_endpoint: Option<String>,
    pub jwks_uri: Option<String>,
}

/// What the provider says of itself, in specifications.
pub ghost struct DiscoveryModel {
    pub issuer: Seq<char>,
    pub authorization_endpoint: Seq<char>,
    pub token_endpoint: Seq<char>,
    pub userinfo_endpoint: Option<Seq<char>>,
    pub jwks_uri: Option<Seq<char>>,
}

impl View for Discovery {
    type V = DiscoveryModel;

    open spec fn view(&self) -> DiscoveryModel {
        DiscoveryModel {
            issuer: self.issuer@,
            authorization_endpoint: self.authorization_endpoint@,
            token_endpoint: self.token_endpoint@,
            userinfo_endpoint: crate::text::opt_view(self.userinfo_endpoint),
            jwks_uri: crate::text::opt_view(self.jwks_uri),
        }
    }
}

#[derive(Debug)]
pub enum OidcError {
    Http(String),
    Discovery(String),
    Token(String),
}

/// An OpenID error, in specifications.
pub ghost enum OidcFault {
    Http(Seq<char>),
    Discovery(Seq<char>),
    Token(Seq<char>),
}

impl View for OidcError {
    type V = OidcFault;

    open spec fn view(&self) -> OidcFault {
        match self {
            OidcError::Http(e) => OidcFault::Http(e@),
            OidcError::Discovery(e) => OidcFault::Discovery(e@),
            OidcError::Token(e) => OidcFault::Token(e@),
        }
    }
}

/// An OpenID error in words.
pub open spec fn fault_message(e: OidcFault) -> Seq<char> {
    match e {
        OidcFault::Http(e) => "http error: "@ + e,
        OidcFault::Discovery(e) => "oidc discovery failed: "@ + e,
        OidcFault::Token(e) => "oidc token exchange failed: "@ + e,
    }
}

impl OidcError {
    /// The error in words.
    pub fn message(&self) -> (out: String)
        ensures
            out@ == fault_message(self@),
    {
        match self {
            OidcError::Http(e) => join2("http error: ", e.as_str()),
            OidcError::Discovery(e) => join2("oidc discovery failed: ", e.as_str()),
            OidcError::Token(e) => join2("oidc token exchange failed: ", e.as_str()),
        }
    }
}

/// What one sign-in attempt has to remember until the provider's callback.
#[derive(Debug, Clone)]
pub struct AuthState {
    pub csrf_token: String,
    pub nonce: String,
    pub pkce_verifier: String,
}

/// A sign-in attempt, in specifications.
pub ghost struct AuthStateModel {
    pub csrf_token: Seq<char>,
    pub nonce: Seq<char>,
    pub pkce_verifier: Seq<char>,
}

impl View for AuthState {
    type V = AuthStateModel;

    open spec fn view(&self) -> AuthStateModel {
        AuthStateModel {
            csrf_token: self.csrf_token@,
            nonce: self.nonce@,
            pkce_verifier: self.pkce_verifier@,
        }
    }
}

/// The fields of a written sign-in attempt, in order.
pub open spec fn auth_state_fields() -> Seq<Seq<char>> {
    seq!["csrf_token"@, "nonce"@, "pkce_verifier"@]
}

/// A sign-in attempt as a JSON value.
pub open spec fn auth_state_json(s: AuthStateModel) -> crate::json::Json {
    crate::json::Json::Object(
        seq![
            ("csrf_token"@, crate::json::Json::Text(s.csrf_token)),
            ("nonce"@, crate::json::Json::Text(s.nonce)),
            ("pkce_verifier"@, crate::json::Json::Text(s.pkce_verifier)),
        ],
    )
}

/// The sign-in attempt that a JSON text holds.
pub open spec fn auth_state_from_json(text: Seq<char>) -> Option<AuthStateModel> {
    match crate::record::record(text, auth_state_fields(), 3) {
        None => None,
        Some(f) => match (
            crate::record::text_field(f[0]),
            crate::record::text_field(f[1]),
            crate::record::text_field(f[2]),
        ) {
            (Some(csrf_token), Some(nonce), Some(pkce_verifier)) => Some(
                AuthStateModel { csrf_token, nonce, pkce_verifier },
            ),
            _ => None,
        },
    }
}

impl AuthState {
    /// The attempt as JSON.
    pub fn to_json(&self) -> (v: JsonValue)
        ensures
            v@ == auth_state_json(self@),
    {
        let members: Vec<(String, JsonValue)> = vec![
            ("csrf_token".to_owned(), JsonValue::text(self.csrf_token.as_str())),
            ("nonce".to_owned(), JsonValue::text(self.nonce.as_str())),
            ("pkce_verifier".to_owned(), JsonValue::text(self.pkce_verifier.as_str())),
        ];
        proof {
            assert(crate::json::member_values(members@) =~= auth_state_json(self@)->Object_0);
        }
        JsonValue::object(members)
    }

    /// Reads an attempt from JSON text; one that was written is read back.
    pub fn from_json(text: &str) -> (r: Option<AuthState>)
        ensures
            match r {
                Some(s) => auth_state_from_json(text@) == Some(s@),
                None => auth_state_from_json(text@) is None,
            },
            forall|s: AuthStateModel|
                text@ == crate::json::json_text(#[trigger] auth_state_json(s)) ==> r is Some
                    && r->0@ == s,
    {
        let names: Vec<&str> = vec!["csrf_token", "nonce", "pkce_verifier"];
        proof {
            reveal_strlit("csrf_token");
            reveal_strlit("nonce");
            reveal_strlit("pkce_verifier");
            let n = auth_state_fields();
            assert(n[0].len() == 10 && n[1].len() == 5 && n[2].len() == 13);
            assert(crate::record::name_texts(names@) =~= n);
            assert forall|s: AuthStateModel| crate::record::has_fields(
                (#[trigger] auth_state_json(s))->Object_0,
                auth_state_fields(),
            ) by {}
        }
        let f = match read_record(text, &names, 3) {
            Some(f) => f,
            None => return None,
        };
        let ghost g = crate::record::field_texts(f@);
        proof {
            assert forall|i: int| 0 <= i < 3 implies g[i] == crate::text::opt_view(f@[i]) by {}
        }
        match (read_text_field(&f[0]), read_text_field(&f[1]), read_text_field(&f[2])) {
            (Some(csrf_token), Some(nonce), Some(pkce_verifier)) => Some(
                AuthState { csrf_token, nonce, pkce_verifier },
            ),
            _ => None,
        }
    }
}

/// The tokens of a signed-in user, and who the user is.
#[derive(Debug, Clone)]
pub struct Tokens {
    pub access_token: String,
    pub refresh_token: Option<String>,
    /// Seconds until the access token expires.
    pub expires_in: i64,
    pub sub: String,
    pub email: String,
    pub name: Option<String>,
}

/// Tokens, in specifications.
pub ghost struct TokensModel {
    pub access_token: Seq<char>,
    pub refresh_token: Option<Seq<char>>,
    pub expires_in: i64,
    pub sub: Seq<char>,
    pub email: Seq<char>,
    pub name: Option<Seq<char>>,
}

impl View for Tokens {
    type V = TokensModel;

    open spec fn view(&self) -> TokensModel {
        TokensModel {
            access_token: self.access_token@,
            refresh_token: crate::text::opt_view(self.refresh_token),
            expires_in: self.expires_in,
            sub: self.sub@,
            email: self.email@,
            name: crate::text::opt_view(self.name),
        }
    }
}

/// What an ID token says of its user.
#[derive(Debug)]
pub struct IdTokenClaimsRaw {
    pub sub: String,
    pub email: Option<String>,
    pub name: Option<String>,
}

/// The claims of an ID token, in specifications.
pub ghost struct IdTokenModel {
    pub sub: Seq<char>,
    pub email: Option<Seq<char>>,
    pub name: Option<Seq<char>>,
}

impl View for IdTokenClaimsRaw {
    type V = IdTokenModel;

    open spec fn view(&self) -> IdTokenModel {
        IdTokenModel {
            sub: self.sub@,
            email: crate::text::opt_view(self.email),
            name: crate::text::opt_view(self.name),
        }
    }
}

/// What was made of the payload of an ID token, in specifications.
pub open spec fn claims_outcome(r: Result<IdTokenClaimsRaw, String>) -> Result<
    IdTokenModel,
    Seq<char>,
> {
    match r {
        Ok(c) => Ok(c@),
        Err(e) => Err(e@),
    }
}

/// The payload of an ID token whose signature is not checked: the second of
/// its three parts.
pub open spec fn id_payload(id_token: Seq<char>) -> Result<Seq<u8>, Seq<char>> {
    let parts = crate::text::pieces(id_token, '.');
    if parts.len() != 3 {
        Err("malformed id_token"@)
    } else {
        match crate::b64::decoded(crate::b64::Form::UrlSafe, parts[1]) {
            None => Err("id_token payload decode: "@ + crate::b64::url_safe_refusal(parts[1])),
            Some(payload) => Ok(payload),
        }
    }
}

/// The payload of an ID token, without checking its signature.
pub fn id_token_payload(id_token: &str) -> (r: Result<Vec<u8>, OidcError>)
    ensures
        match r {
            Ok(payload) => id_payload(id_token@) == Ok::<_, Seq<char>>(payload@),
            Err(e) => e is Token && id_payload(id_token@) == Err::<Seq<u8>, _>(e->Token_0@),
        },
{
    let parts = pieces_of(id_token, '.');
    let ghost all = crate::text::texts(parts@);
    if parts.len() != 3 {
        return Err(OidcError::Token("malformed id_token".to_owned()));
    }
    proof {
        assert(all[1] == parts@[1]@);
    }
    match decode_url_safe(parts[1].as_str()) {
        Ok(payload) => {
            proof {
                crate::b64::decoded_inverts_encoded(crate::b64::Form::UrlSafe, payload@);
            }
            Ok(payload)
        },
        Err(e) => Err(OidcError::Token(join2("id_token payload decode: ", e.as_str()))),
    }
}

/// The claims of an ID token whose signature is not checked, where `parsed` is
/// what its payload reads as.
pub open spec fn id_token_claims(
    id_token: Seq<char>,
    parsed: Result<IdTokenModel, Seq<char>>,
) -> Result<IdTokenModel, Seq<char>> {
    match id_payload(id_token) {
        Err(e) => Err(e),
        Ok(_) => match parsed {
            Ok(claims) => Ok(claims),
            Err(e) => Err("id_token payload parse: "@ + e),
        },
    }
}

/// The claims of an ID token, without checking its signature. `parsed` is what
/// the bytes that `id_token_payload` gives read as; it does not count where
/// there are none.
pub fn extract_claims_unverified(id_token: &str, parsed: Result<IdTokenClaimsRaw, String>) -> (r:
    Result<IdTokenClaimsRaw, OidcError>)
    ensures
        match r {
            Ok(c) => id_token_claims(id_token@, claims_outcome(parsed)) == Ok::<_, Seq<char>>(c@),
            Err(e) => e is Token && id_token_claims(id_token@, claims_outcome(parsed)) == Err::<
                IdTokenModel,
                _,
            >(e->Token_0@),
        },
{
    match id_token_payload(id_token) {
        Ok(_) => {},
        Err(e) => return Err(e),
    }
    match parsed {
        Ok(claims) => Ok(claims),
        Err(e) => Err(OidcError::Token(join2("id_token payload parse: ", e.as_str()))),
    }
}

/// What the token endpoint answers.
#[derive(Debug)]
pub struct TokenResponse {
    pub access_token: String,
    pub refresh_token: Option<String>,
    pub expires_in: Option<i64>,
    pub id_token: String,
}

/// An answer of the token endpoint, in specifications.
pub ghost struct TokenResponseModel {
    pub access_token: Seq<char>,
    pub refresh_token: Option<Seq<char>>,
    pub expires_in: Option<i64>,
    pub id_token: Seq<char>,
}

impl View for TokenResponse {
    type V = TokenResponseModel;

    open spec fn view(&self) -> TokenResponseModel {
        TokenResponseModel {
            access_token: self.access_token@,
            refresh_token: crate::text::opt_view(self.refresh_token),
            expires_in: self.expires_in,
            id_token: self.id_token@,
        }
    }
}

/// What was made of the body of a reply, in specifications.
pub open spec fn response_outcome(r: Result<TokenResponse, String>) -> Result<
    TokenResponseModel,
    Seq<char>,
> {
    match r {
        Ok(t) => Ok(t@),
        Err(e) => Err(e@),
    }
}

/// Whether an HTTP status means success.
pub open spec fn is_success(status: u16) -> bool {
    200 <= status <= 299
}

/// The tokens in an answer of the token endpoint, where `claims` is what the
/// payload of its ID token reads as. An access token of unknown life lives an
/// hour; an unknown email is empty.
pub open spec fn tokens_of(
    t: TokenResponseModel,
    claims: Result<IdTokenModel, Seq<char>>,
) -> Result<TokensModel, Seq<char>> {
    match id_token_claims(t.id_token, claims) {
        Err(e) => Err(e),
        Ok(claims) => Ok(
            TokensModel {
                access_token: t.access_token,
                refresh_token: t.refresh_token,
                expires_in: match t.expires_in {
                    Some(n) => n,
                    None => 3600,
                },
                sub: claims.sub,
                email: match claims.email {
                    Some(e) => e,
                    None => Seq::empty(),
                },
                name: claims.name,
            },
        ),
    }
}

/// The tokens in a reply of the token endpoint, where `parsed` is what its
/// body reads as, and `claims` what the payload of the ID token in it reads
/// as. `refused` opens the words for a reply that is no success.
pub open spec fn replied_tokens(
    refused: Seq<char>,
    status: u16,
    body: Seq<u8>,
    parsed: Result<TokenResponseModel, Seq<char>>,
    claims: Result<IdTokenModel, Seq<char>>,
) -> Result<TokensModel, Seq<char>> {
    if !is_success(status) {
        Err(
            refused + crate::numbers::decimal_nat(status as nat) + ": "@ + crate::text::lossy(body),
        )
    } else {
        match parsed {
            Err(e) => Err("parse: "@ + e),
            Ok(t) => tokens_of(t, claims),
        }
    }
}

/// Whether an outcome is that of a request for tokens: the tokens, or an error
/// in the words given.
pub open spec fn tokens_are(
    r: Result<Tokens, OidcError>,
    expected: Result<TokensModel, Seq<char>>,
) -> bool {
    match r {
        Ok(t) => expected == Ok::<_, Seq<char>>(t@),
        Err(e) => e is Token && expected == Err::<TokensModel, _>(e->Token_0@),
    }
}

fn read_tokens(
    refused: &str,
    status: u16,
    body: &[u8],
    parsed: Result<TokenResponse, String>,
    claims: Result<IdTokenClaimsRaw, String>,
) -> (r: Result<Tokens, OidcError>)
    ensures
        tokens_are(
            r,
            replied_tokens(
                refused@,
                status,
                body@,
                response_outcome(parsed),
                claims_outcome(claims),
            ),
        ),
{
    if !(200 <= status && status <= 299) {
        let mut words = join2(refused, decimal_of(status as u64).as_str());
        words.append(": ");
        words.append(lossy_text(body).as_str());
        return Err(OidcError::Token(words));
    }
    let response = match parsed {
        Ok(response) => response,
        Err(e) => return Err(OidcError::Token(join2("parse: ", e.as_str()))),
    };
    let claims = match extract_claims_unverified(response.id_token.as_str(), claims) {
        Ok(claims) => claims,
        Err(e) => return Err(e),
    };
    let email = match claims.email {
        Some(email) => email,
        None => String::new(),
    };
    proof {
        assert(claims.email is None ==> email@ =~= Seq::<char>::empty());
    }
    let expires_in: i64 = match response.expires_in {
        Some(n) => n,
        None => 3600,
    };
    Ok(
        Tokens {
            access_token: response.access_token,
            refresh_token: response.refresh_token,
            expires_in,
            sub: claims.sub,
            email,
            name: claims.name,
        },
    )
}

/// A random text: base64url of as many bytes as asked for, drawn by chance.
pub fn random_string(n_bytes: usize) -> (s: String)
    ensures
        is_random_text(s@, n_bytes as nat),
        forall|i: int| 0 <= i < s@.len() ==> crate::b64::is_url_safe(#[trigger] s@[i]),
        n_bytes > 0 ==> s@.len() > 0,
{
    let bytes = random_bytes(n_bytes);
    proof {
        crate::b64::url_safe_alphabet(bytes@);
    }
    encode_url_safe(bytes.as_slice())
}

/// Whether a text is base64url of that many bytes.
pub open spec fn is_random_text(s: Seq<char>, n_bytes: nat) -> bool {
    exists|b: Seq<u8>|
        b.len() == n_bytes && s == #[trigger] crate::b64::encoded(crate::b64::Form::UrlSafe, b)
}

/// The PKCE challenge of a verifier: base64url of its SHA-256 digest.
pub open spec fn pkce_challenge(verifier: Seq<char>) -> Seq<char> {
    crate::b64::encoded(
        crate::b64::Form::UrlSafe,
        crate::crypto::sha256_digest(vstd::utf8::encode_utf8(verifier)),
    )
}

/// The PKCE challenge of a verifier.
pub fn pkce_s256(verifier: &str) -> (s: String)
    ensures
        s@ == pkce_challenge(verifier@),
{
    encode_url_safe(sha256(verifier.as_bytes()).as_slice())
}

/// Texts with a separator between them.
pub open spec fn separated(parts: Seq<Seq<char>>, separator: Seq<char>) -> Seq<char>
    decreases parts.len(),
{
    if parts.len() == 0 {
        Seq::empty()
    } else if parts.len() == 1 {
        parts.last()
    } else {
        separated(parts.drop_last(), separator) + separator + parts.last()
    }
}

fn separate(parts: &Vec<String>, separator: &str) -> (out: String)
    ensures
        out@ == separated(crate::text::texts(parts@), separator@),
{
    let ghost all = crate::text::texts(parts@);
    let mut out = String::new();
    let mut i: usize = 0;
    proof {
        assert(out@ =~= separated(all.take(0), separator@));
    }
    while i < parts.len()
        invariant
            i <= parts@.len(),
            all == crate::text::texts(parts@),
            out@ == separated(all.take(i as int), separator@),
        decreases parts@.len() - i,
    {
        if i > 0 {
            out.append(separator);
        }
        out.append(parts[i].as_str());
        i = i + 1;
        proof {
            assert(all.take(i as int).drop_last() =~= all.take(i - 1));
            assert(all.take(i as int).last() == parts@[i - 1]@);
            assert(out@ =~= separated(all.take(i as int), separator@));
        }
    }
    proof {
        assert(all.take(i as int) =~= all);
    }
    out
}

/// A request to the token endpoint: a form, with the client's name and secret
/// as basic authentication.
#[derive(Debug)]
pub struct TokenRequest {
    pub url: String,
    pub user: String,
    pub password: String,
    pub form: Vec<(String, String)>,
}

/// A request to the token endpoint, in specifications.
pub ghost struct TokenRequestModel {
    pub url: Seq<char>,
    pub user: Seq<char>,
    pub password: Seq<char>,
    pub form: Seq<(Seq<char>, Seq<char>)>,
}

impl View for TokenRequest {
    type V = TokenRequestModel;

    open spec fn view(&self) -> TokenRequestModel {
        TokenRequestModel {
            url: self.url@,
            user: self.user@,
            password: self.password@,
            form: crate::json::pair_texts(self.form@),
        }
    }
}

/// Client of one provider.
#[derive(Debug, Clone)]
pub struct OidcClient {
    discovery: Discovery,
    client_id: String,
    client_secret: String,
    redirect_uri: String,
    scopes: Vec<String>,
}

/// A client, in specifications.
pub ghost struct OidcClientModel {
    pub discovery: DiscoveryModel,
    pub client_id: Seq<char>,
    pub client_secret: Seq<char>,
    pub redirect_uri: Seq<char>,
    pub scopes: Seq<Seq<char>>,
}

impl View for OidcClient {
    type V = OidcClientModel;

    closed spec fn view(&self) -> OidcClientModel {
        OidcClientModel {
            discovery: self.discovery@,
            client_id: self.client_id@,
            client_secret: self.client_secret@,
            redirect_uri: self.redirect_uri@,
            scopes: crate::text::texts(self.scopes@),
        }
    }
}

/// The address of the provider's description of itself.
pub fn discovery_url(issuer: &Url) -> (r: Result<Url, OidcError>)
    ensures
        match r {
            Ok(u) => crate::weburl::url_joined(issuer@, ".well-known/openid-configuration"@) == Ok::<
                _,
                Seq<char>,
            >(u@),
            Err(e) => e is Discovery && crate::weburl::url_joined(
                issuer@,
                ".well-known/openid-configuration"@,
            ) == Err::<Seq<char>, _>(e->Discovery_0@),
        },
{
    match issuer.join(".well-known/openid-configuration") {
        Ok(u) => Ok(u),
        Err(e) => Err(OidcError::Discovery(e)),
    }
}

/// The query of the address to which a user is sent to sign in.
pub open spec fn authorize_query(c: OidcClientModel, s: AuthStateModel) -> Seq<
    (Seq<char>, Seq<char>),
> {
    seq![
        ("response_type"@, "code"@),
        ("client_id"@, c.client_id),
        ("redirect_uri"@, c.redirect_uri),
        ("scope"@, separated(c.scopes, " "@)),
        ("state"@, s.csrf_token),
        ("nonce"@, s.nonce),
        ("code_challenge"@, pkce_challenge(s.pkce_verifier)),
        ("code_challenge_method"@, "S256"@),
    ]
}

/// The address to which a user is sent to sign in.
pub open spec fn authorize_url(c: OidcClientModel, s: AuthStateModel) -> Result<
    Seq<char>,
    Seq<char>,
> {
    match crate::weburl::url_parsed(c.discovery.authorization_endpoint) {
        Err(e) => Err(e),
        Ok(u) => Ok(
            crate::weburl::with_query(u, crate::weburl::query_text(authorize_query(c, s))),
        ),
    }
}

/// The form that exchanges an authorization code for tokens.
pub open spec fn exchange_form(c: OidcClientModel, code: Seq<char>, s: AuthStateModel) -> Seq<
    (Seq<char>, Seq<char>),
> {
    seq![
        ("grant_type"@, "authorization_code"@),
        ("code"@, code),
        ("redirect_uri"@, c.redirect_uri),
        ("client_id"@, c.client_id),
        ("code_verifier"@, s.pkce_verifier),
    ]
}

/// The request that exchanges an authorization code for tokens.
pub open spec fn exchange_request(c: OidcClientModel, code: Seq<char>, s: AuthStateModel)
    -> TokenRequestModel {
    TokenRequestModel {
        url: c.discovery.token_endpoint,
        user: c.client_id,
        password: c.client_secret,
        form: exchange_form(c, code, s),
    }
}

/// The request that exchanges a refresh token for new tokens.
pub open spec fn refresh_request(c: OidcClientModel, refresh_token: Seq<char>)
    -> TokenRequestModel {
    TokenRequestModel {
        url: c.discovery.token_endpoint,
        user: c.client_id,
        password: c.client_secret,
        form: seq![
            ("grant_type"@, "refresh_token"@),
            ("refresh_token"@, refresh_token),
            ("client_id"@, c.client_id),
        ],
    }
}

/// The client of a provider that answered with a status and, if that is a
/// success, a document.
pub open spec fn discovered(
    status: u16,
    document: Result<DiscoveryModel, Seq<char>>,
    client_id: Seq<char>,
    client_secret: Seq<char>,
    redirect_uri: Seq<char>,
    scopes: Seq<Seq<char>>,
) -> Result<OidcClientModel, OidcFault> {
    if !is_success(status) {
        Err(OidcFault::Discovery("HTTP "@ + crate::numbers::decimal_nat(status as nat)))
    } else {
        match document {
            Err(e) => Err(OidcFault::Discovery(e)),
            Ok(discovery) => Ok(
                OidcClientModel { discovery, client_id, client_secret, redirect_uri, scopes },
            ),
        }
    }
}

/// A provider's description of itself, as far as it could be read.
pub open spec fn document_view(d: Result<Discovery, String>) -> Result<DiscoveryModel, Seq<char>> {
    match d {
        Ok(d) => Ok(d@),
        Err(e) => Err(e@),
    }
}

/// What the code is exchanged with fits what the sign-in was begun with: the
/// same client and redirect address, and the verifier whose challenge was
/// sent.
pub proof fn exchange_fits_authorization(c: OidcClientModel, code: Seq<char>, s: AuthStateModel)
    ensures
        authorize_query(c, s)[1] == exchange_form(c, code, s)[3],
        authorize_query(c, s)[2] == exchange_form(c, code, s)[2],
        authorize_query(c, s)[6] == ("code_challenge"@, pkce_challenge(
            exchange_form(c, code, s)[4].1,
        )),
{
}

impl OidcClient {
    /// The client of the provider that answered the request for its
    /// description with a status and, if that is a success, a document.
    pub fn discover(
        status: u16,
        document: Result<Discovery, String>,
        client_id: String,
        client_secret: String,
        redirect_uri: Url,
        scopes: Vec<String>,
    ) -> (r: Result<OidcClient, OidcError>)
        ensures
            discovered(
                status,
                document_view(document),
                client_id@,
                client_secret@,
                redirect_uri@,
                crate::text::texts(scopes@),
            ) == (match r {
                Ok(c) => Ok(c@),
                Err(e) => Err(e@),
            }),
            match r {
                Ok(c) => is_success(status) && document is Ok && c@ == (OidcClientModel {
                    discovery: document->Ok_0@,
                    client_id: client_id@,
                    client_secret: client_secret@,
                    redirect_uri: redirect_uri@,
                    scopes: crate::text::texts(scopes@),
                }),
                Err(e) => if !is_success(status) {
                    e@ == OidcFault::Discovery(
                        "HTTP "@ + crate::numbers::decimal_nat(status as nat),
                    )
                } else {
                    document is Err && e@ == OidcFault::Discovery(document->Err_0@)
                },
            },
    {
        if !(200 <= status && status <= 299) {
            return Err(
                OidcError::Discovery(join2("HTTP ", decimal_of(status as u64).as_str())),
            );
        }
        match document {
            Ok(discovery) => Ok(
                OidcClient {
                    discovery,
                    client_id,
                    client_secret,
                    redirect_uri: redirect_uri.as_str().to_owned(),
                    scopes,
                },
            ),
            Err(e) => Err(OidcError::Discovery(e)),
        }
    }

    pub fn discovery(&self) -> (d: &Discovery)
        ensures
            d@ == self@.discovery,
    {
        &self.discovery
    }

    /// The address to which a user is sent to sign in, for an attempt.
    pub fn begin_with(&self, state: &AuthState) -> (r: Result<Url, OidcError>)
        ensures
            match r {
                Ok(u) => authorize_url(self@, state@) == Ok::<_, Seq<char>>(u@),
                Err(e) => e is Discovery && authorize_url(self@, state@) == Err::<Seq<char>, _>(
                    e->Discovery_0@,
                ),
            },
    {
        let url = match Url::parse(self.discovery.authorization_endpoint.as_str()) {
            Ok(url) => url,
            Err(e) => return Err(OidcError::Discovery(e)),
        };
        let pairs: Vec<(String, String)> = vec![
            ("response_type".to_owned(), "code".to_owned()),
            ("client_id".to_owned(), self.client_id.clone()),
            ("redirect_uri".to_owned(), self.redirect_uri.clone()),
            ("scope".to_owned(), separate(&self.scopes, " ")),
            ("state".to_owned(), state.csrf_token.clone()),
            ("nonce".to_owned(), state.nonce.clone()),
            ("code_challenge".to_owned(), pkce_s256(state.pkce_verifier.as_str())),
            ("code_challenge_method".to_owned(), "S256".to_owned()),
        ];
        proof {
            assert(crate::json::pair_texts(pairs@) =~= authorize_query(self@, state@));
        }
        Ok(url.with_pairs(&pairs))
    }

    /// Begins a sign-in: the address to which the user is sent, and the
    /// attempt to remember through a temporary cookie. Its secrets are drawn
    /// by chance.
    pub fn begin(&self) -> (r: Result<(Url, AuthState), OidcError>)
        ensures
            match r {
                Ok((u, s)) => authorize_url(self@, s@) == Ok::<_, Seq<char>>(u@) && is_random_text(
                    s.csrf_token@,
                    32,
                ) && is_random_text(s.nonce@, 32) && is_random_text(s.pkce_verifier@, 64),
                Err(e) => e is Discovery && crate::weburl::url_parsed(
                    self@.discovery.authorization_endpoint,
                ) == Err::<Seq<char>, _>(e->Discovery_0@),
            },
    {
        let state = AuthState {
            csrf_token: random_string(32),
            nonce: random_string(32),
            pkce_verifier: random_string(64),
        };
        match self.begin_with(&state) {
            Ok(url) => Ok((url, state)),
            Err(e) => Err(e),
        }
    }

    fn token_request(&self, form: Vec<(String, String)>) -> (q: TokenRequest)
        ensures
            q@ == (TokenRequestModel {
                url: self@.discovery.token_endpoint,
                user: self@.client_id,
                password: self@.client_secret,
                form: crate::json::pair_texts(form@),
            }),
    {
        TokenRequest {
            url: self.discovery.token_endpoint.clone(),
            user: self.client_id.clone(),
            password: self.client_secret.clone(),
            form,
        }
    }

    /// The request that exchanges an authorization code for tokens.
    pub fn exchange_code(&self, code: &str, state: &AuthState) -> (q: TokenRequest)
        ensures
            q@ == exchange_request(self@, code@, state@),
            q@ == (TokenRequestModel {
                url: self@.discovery.token_endpoint,
                user: self@.client_id,
                password: self@.client_secret,
                form: exchange_form(self@, code@, state@),
            }),
    {
        let form: Vec<(String, String)> = vec![
            ("grant_type".to_owned(), "authorization_code".to_owned()),
            ("code".to_owned(), code.to_owned()),
            ("redirect_uri".to_owned(), self.redirect_uri.clone()),
            ("client_id".to_owned(), self.client_id.clone()),
            ("code_verifier".to_owned(), state.pkce_verifier.clone()),
        ];
        proof {
            assert(crate::json::pair_texts(form@) =~= exchange_form(self@, code@, state@));
        }
        self.token_request(form)
    }

    /// The tokens in the reply to `exchange_code`, given its status, its body,
    /// what the body reads as, and what the payload of its ID token reads as.
    /// Only the words of a refusal are taken from the body itself.
    pub fn exchange_reply(
        status: u16,
        body: &[u8],
        parsed: Result<TokenResponse, String>,
        claims: Result<IdTokenClaimsRaw, String>,
    ) -> (r: Result<Tokens, OidcError>)
        ensures
            tokens_are(
                r,
                replied_tokens(
                    "token endpoint returned "@,
                    status,
                    body@,
                    response_outcome(parsed),
                    claims_outcome(claims),
                ),
            ),
    {
        read_tokens("token endpoint returned ", status, body, parsed, claims)
    }

    /// The request that exchanges a refresh token for new tokens.
    pub fn refresh(&self, refresh_token: &str) -> (q: TokenRequest)
        ensures
            q@ == refresh_request(self@, refresh_token@),
            q@ == (TokenRequestModel {
                url: self@.discovery.token_endpoint,
                user: self@.client_id,
                password: self@.client_secret,
                form: seq![
                    ("grant_type"@, "refresh_token"@),
                    ("refresh_token"@, refresh_token@),
                    ("client_id"@, self@.client_id),
                ],
            }),
    {
        let form: Vec<(String, String)> = vec![
            ("grant_type".to_owned(), "refresh_token".to_owned()),
            ("refresh_token".to_owned(), refresh_token.to_owned()),
            ("client_id".to_owned(), self.client_id.clone()),
        ];
        proof {
            assert(crate::json::pair_texts(form@) =~= seq![
                ("grant_type"@, "refresh_token"@),
                ("refresh_token"@, refresh_token@),
                ("client_id"@, self@.client_id),
            ]);
        }
        self.token_request(form)
    }

    /// The tokens in the reply to `refresh`, given its status, its body, what
    /// the body reads as, and what the payload of its ID token reads as.
    pub fn refresh_reply(
        status: u16,
        body: &[u8],
        parsed: Result<TokenResponse, String>,
        claims: Result<IdTokenClaimsRaw, String>,
    ) -> (r: Result<Tokens, OidcError>)
        ensures
            tokens_are(
                r,
                replied_tokens(
                    "refresh returned "@,
                    status,
                    body@,
                    response_outcome(parsed),
                    claims_outcome(claims),
                ),
            ),
    {
        read_tokens("refresh returned ", status, body, parsed, claims)
    }
}

} // verus!
