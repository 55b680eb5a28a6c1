//! How the portal writes things down: sessions, claims and attempts as JSON,
//! queries, numbers; and how it reads its configuration.

use crate::config::{ConfigFault, ConfigModel, Environment};
use crate::file_jwt::{Action, FileClaimsModel};
use crate::json::Json;
use crate::promises::answers::says;
use crate::session::{SessionFault, SessionModel};
use vstd::prelude::*;

verus! {

/// A text, or `null` where there is none.
pub open spec fn text_or_null(s: Option<Seq<char>>) -> Json {
    if s is Some {
        Json::Text(s->0)
    } else {
        Json::Null
    }
}

/// A session is written as an object that says each of its fields under its
/// own name.
pub proof fn sessions_are_written_by_field(s: SessionModel)
    ensures
        ({
            let j = crate::session::session_json(s);
            &&& says(j, "sub"@, Json::Text(s.sub))
            &&& says(j, "email"@, Json::Text(s.email))
            &&& says(j, "name"@, text_or_null(s.name))
            &&& says(j, "access_token"@, Json::Text(s.access_token))
            &&& says(j, "refresh_token"@, text_or_null(s.refresh_token))
            &&& says(j, "access_token_exp"@, Json::Int(s.access_token_exp as int))
            &&& j->Object_0.len() == 6
        }),
{
    let m = crate::session::session_json(s)->Object_0;
    assert(m[0].0 == "sub"@ && m[1].0 == "email"@ && m[2].0 == "name"@);
    assert(m[3].0 == "access_token"@ && m[4].0 == "refresh_token"@ && m[5].0
        == "access_token_exp"@);
}

/// The claims of a file token are written as an object that says each of its
/// fields under its own name, the action by a word.
pub proof fn claims_are_written_by_field(c: FileClaimsModel)
    ensures
        ({
            let j = crate::file_jwt::claims_json(c);
            &&& says(j, "sub"@, Json::Text(c.sub))
            &&& says(j, "email"@, Json::Text(c.email))
            &&& says(j, "path"@, Json::Text(c.path))
            &&& c.action == Action::Read ==> says(j, "action"@, Json::Text("read"@))
            &&& c.action == Action::Write ==> says(j, "action"@, Json::Text("write"@))
            &&& says(j, "session_enc"@, Json::Text(c.session_enc))
            &&& says(j, "exp"@, Json::Int(c.exp as int))
            &&& says(j, "iat"@, Json::Int(c.iat as int))
            &&& j->Object_0.len() == 7
        }),
{
    let m = crate::file_jwt::claims_json(c)->Object_0;
    assert(m[0].0 == "sub"@ && m[1].0 == "email"@ && m[2].0 == "path"@ && m[3].0 == "action"@);
    assert(m[4].0 == "session_enc"@ && m[5].0 == "exp"@ && m[6].0 == "iat"@);
}

/// A file token has a header that names the algorithm, and carries its claims
/// as they are written.
pub proof fn file_tokens_carry_their_claims(c: FileClaimsModel, key: Seq<u8>)
    ensures
        crate::file_jwt::claims_token(c, key) == crate::jwt::token_of(
            vstd::utf8::encode_utf8("{\"typ\":\"JWT\",\"alg\":\"HS256\"}"@),
            vstd::utf8::encode_utf8(
                crate::json::json_text(crate::file_jwt::claims_json(c)),
            ),
            key,
        ),
        crate::jwt::token_payload(crate::file_jwt::claims_token(c, key)) == Some(
            vstd::utf8::encode_utf8(crate::json::json_text(crate::file_jwt::claims_json(c))),
        ),
{
    crate::jwt::payload_comes_back(
        vstd::utf8::encode_utf8(crate::jwt::header_text()),
        vstd::utf8::encode_utf8(crate::json::json_text(crate::file_jwt::claims_json(c))),
        key,
    );
}

/// A cookie is opened with the nonce in its first twelve bytes; one that is no
/// base64, or too short to hold a nonce and a tag, is not decoded, and one that
/// the key does not open is not decrypted.
pub proof fn cookies_are_opened_with_their_nonce(
    value: Seq<char>,
    nonce: Seq<u8>,
    sealed: Seq<u8>,
    key: Seq<u8>,
)
    ensures
        crate::b64::decoded(crate::b64::Form::UrlSafe, value) is None
            ==> crate::session::opened_session(value, key) == Err::<SessionModel, _>(
            SessionFault::Decode,
        ),
        nonce.len() == 12 && value == crate::b64::encoded(
            crate::b64::Form::UrlSafe,
            nonce + sealed,
        ) ==> {
            &&& sealed.len() < 16 ==> crate::session::opened_session(value, key) == Err::<
                SessionModel,
                _,
            >(SessionFault::Decode)
            &&& sealed.len() >= 16 ==> match crate::crypto::aes_opened(key, nonce, sealed) {
                None => crate::session::opened_session(value, key) == Err::<SessionModel, _>(
                    SessionFault::Decrypt,
                ),
                Some(plain) => match crate::session::session_from_json(plain) {
                    Some(s) => crate::session::opened_session(value, key) == Ok::<_, SessionFault>(
                        s,
                    ),
                    None => crate::session::opened_session(value, key) == Err::<SessionModel, _>(
                        SessionFault::Json(plain),
                    ),
                },
            }
        },
{
    if nonce.len() == 12 && value == crate::b64::encoded(
        crate::b64::Form::UrlSafe,
        nonce + sealed,
    ) {
        crate::b64::decoded_inverts_encoded(crate::b64::Form::UrlSafe, nonce + sealed);
        assert((nonce + sealed).take(12) =~= nonce);
        assert((nonce + sealed).skip(12) =~= sealed);
    }
}

/// The value of a variable that is set.
pub open spec fn set_to(value: Option<String>, text: Seq<char>) -> bool {
    value is Some && value->0@ == text
}

/// Whether a field is the value of a variable, or the default where it is not
/// set.
pub open spec fn is_value_or(field: Seq<char>, value: Option<String>, default: Seq<char>) -> bool {
    set_to(value, field) || (value is None && field == default)
}

/// Whether a field is the URL that a variable holds.
pub open spec fn is_url_of(field: Seq<char>, value: Option<String>) -> bool {
    value is Some && crate::weburl::url_parsed(value->0@) == Ok::<_, Seq<char>>(field)
}

/// Each field of a configuration comes from its own variable, or from its
/// default where there is one.
pub proof fn configurations_come_from_their_variables(
    env: Environment,
    bind_refusal: Option<Seq<char>>,
    metrics_refusal: Option<Seq<char>>,
)
    ensures
        crate::config::configured(env, bind_refusal, metrics_refusal) matches Ok(c) ==> {
            &&& bind_refusal is None && metrics_refusal is None
            &&& is_value_or(c.bind, env.bind_addr, "0.0.0.0:3000"@)
            &&& is_value_or(c.metrics_bind, env.metrics_addr, "0.0.0.0:9090"@)
            &&& is_url_of(c.public_base_url, env.public_base_url)
            &&& is_url_of(c.oo_document_server_url, env.oo_document_server_url)
            &&& env.oidc_issuer is Some ==> is_url_of(c.oidc_issuer, env.oidc_issuer)
            &&& env.oidc_issuer is None ==> crate::weburl::url_parsed("https://auth.example.com"@)
                == Ok::<_, Seq<char>>(c.oidc_issuer)
            &&& is_value_or(c.oidc_client_id, env.oidc_client_id, "office-portal"@)
            &&& set_to(env.oidc_client_secret, c.oidc_client_secret)
            &&& set_to(env.oo_jwt_secret, c.oo_jwt_secret)
            &&& is_value_or(
                c.dav_base_url_template,
                env.dav_base_url_template,
                "https://dav.{domain}"@,
            )
            &&& env.file_jwt_key is Some && crate::config::decoded_key(
                "FILE_JWT_KEY"@,
                Some(env.file_jwt_key->0@),
            ) == Ok::<_, ConfigFault>(c.file_jwt_key)
            &&& env.session_key is Some && crate::config::decoded_key(
                "SESSION_KEY"@,
                Some(env.session_key->0@),
            ) == Ok::<_, ConfigFault>(c.session_key)
            &&& c.file_jwt_key.len() == 32 && c.session_key.len() == 32
        },
        crate::config::configured(env, bind_refusal, metrics_refusal) matches Err(
            ConfigFault::Missing(var),
        ) ==> {
            ||| var == "PUBLIC_BASE_URL"@ && env.public_base_url is None
            ||| var == "OIDC_CLIENT_SECRET"@ && env.oidc_client_secret is None
            ||| var == "OO_DOCUMENT_SERVER_URL"@ && env.oo_document_server_url is None
            ||| var == "OO_JWT_SECRET"@ && env.oo_jwt_secret is None
            ||| var == "FILE_JWT_KEY"@ && env.file_jwt_key is None
            ||| var == "SESSION_KEY"@ && env.session_key is None
        },
        bind_refusal is Some ==> crate::config::configured(env, bind_refusal, metrics_refusal)
            == Err::<ConfigModel, _>(ConfigFault::Addr(bind_refusal->0)),
        bind_refusal is None && metrics_refusal is Some ==> crate::config::configured(
            env,
            bind_refusal,
            metrics_refusal,
        ) == Err::<ConfigModel, _>(ConfigFault::Addr(metrics_refusal->0)),
        bind_refusal is None && metrics_refusal is None && env.public_base_url is Some
            && env.oidc_client_secret is Some && env.oo_document_server_url is Some
            && env.oo_jwt_secret is Some && env.file_jwt_key is Some && env.session_key is Some
            ==> crate::config::configured(env, bind_refusal, metrics_refusal) !is Err || {
            let e = crate::config::configured(env, bind_refusal, metrics_refusal)->Err_0;
            e is Url || e is Key
        },
{
}

/// The listen addresses are those of the variables, or the defaults.
pub proof fn addresses_come_from_their_variables(env: Environment)
    ensures
        is_value_or(crate::config::bind_text(env), env.bind_addr, "0.0.0.0:3000"@),
        is_value_or(crate::config::metrics_text(env), env.metrics_addr, "0.0.0.0:9090"@),
{
}

/// The WebDAV server of a domain is the template with the domain in the place
/// that is marked for it.
pub proof fn servers_are_of_their_domain(
    c: ConfigModel,
    a: Seq<char>,
    b: Seq<char>,
    domain: Seq<char>,
)
    requires
        c.dav_base_url_template == a + "{domain}"@ + b,
        crate::promises::editing::stands_once(a, "{domain}"@, b),
    ensures
        crate::config::dav_base(c, domain) == crate::weburl::url_parsed(a + domain + b),
{
    reveal_strlit("{domain}");
    crate::text::replacing_puts_in_place(a, "{domain}"@, b, domain);
    crate::text::replacing_keeps_the_rest(b, "{domain}"@, domain);
}

/// A query stands behind a URL that has none, before its fragment.
pub proof fn queries_stand_behind_the_url(
    url: Seq<char>,
    fragment: Seq<char>,
    query: Seq<char>,
)
    ensures
        !url.contains('#') && !url.contains('?') && (fragment.len() == 0 || fragment[0] == '#')
            ==> crate::weburl::with_query(url + fragment, query) == url + seq!['?'] + query
            + fragment,
        !url.contains('#') && url.contains('?') && url[url.len() - 1] != '?' && (fragment.len() == 0
            || fragment[0] == '#') ==> crate::weburl::with_query(url + fragment, query) == url + seq![
            '&',
        ] + query + fragment,
        !url.contains('#') && !url.contains('?') && (fragment.len() == 0 || fragment[0] == '#')
            ==> crate::weburl::with_query(url + seq!['?'] + fragment, query) == url + seq!['?']
            + query + fragment,
{
    if !url.contains('#') && !url.contains('?') && (fragment.len() == 0 || fragment[0] == '#') {
        let main = url + seq!['?'];
        let all = main + fragment;
        crate::text::lemma_first_index(all, '#');
        let cut = crate::text::first_index(all, '#');
        assert(cut == main.len()) by {
            if cut < url.len() {
                assert(all[cut] == url[cut]);
                assert(url.contains(url[cut]));
            }
            if cut > main.len() {
                assert(all[main.len() as int] == fragment[0]);
            }
        }
        assert(all.take(cut) =~= main);
        assert(all.skip(cut) =~= fragment);
        crate::text::lemma_first_index(main, '?');
        let mark = crate::text::first_index(main, '?');
        assert(main[url.len() as int] == '?');
        assert(main.contains(main[url.len() as int]));
        if mark < url.len() {
            assert(main[mark] == url[mark]);
            assert(url.contains(url[mark]));
        }
        assert(main + Seq::<char>::empty() + query + fragment =~= main + query + fragment);
    }
    if !url.contains('#') && (fragment.len() == 0 || fragment[0] == '#') {
        let all = url + fragment;
        crate::text::lemma_first_index(all, '#');
        let cut = crate::text::first_index(all, '#');
        assert(cut == url.len()) by {
            if cut < url.len() {
                assert(all[cut] == url[cut]);
                assert(url.contains(url[cut]));
            }
            if cut > url.len() {
                assert(all[url.len() as int] == fragment[0]);
            }
        }
        assert(all.take(cut) =~= url);
        assert(all.skip(cut) =~= fragment);
        crate::text::lemma_first_index(url, '?');
    }
}

/// A query is its pairs with `&` between them, each with `=` between the name
/// and the value.
pub proof fn queries_are_written_by_pair(
    pairs: Seq<(Seq<char>, Seq<char>)>,
    name: Seq<char>,
    value: Seq<char>,
)
    ensures
        crate::weburl::query_text(seq![(name, value)]) == crate::weburl::form_encoded(name) + seq![
            '=',
        ] + crate::weburl::form_encoded(value),
        pairs.len() > 0 ==> crate::weburl::query_text(pairs.push((name, value)))
            == crate::weburl::query_text(pairs) + seq!['&'] + crate::weburl::query_text(
            seq![(name, value)],
        ),
{
    assert(pairs.push((name, value)).drop_last() =~= pairs);
    assert(seq![(name, value)].last() == (name, value));
}

/// A value is written compactly: names and texts in quotes, members and items
/// with commas between them, nothing else.
pub proof fn values_are_written_compactly(
    s: Seq<char>,
    n: int,
    a: Seq<Json>,
    m: Seq<(Seq<char>, Json)>,
    x: Json,
)
    ensures
        crate::json::json_text(Json::Null) == "null"@,
        crate::json::json_text(Json::Bool(true)) == "true"@,
        crate::json::json_text(Json::Bool(false)) == "false"@,
        crate::json::json_text(Json::Int(n)) == crate::numbers::decimal(n),
        crate::json::json_text(Json::Text(s)) == crate::json::quoted(s),
        crate::json::json_text(Json::Array(seq![x])) == seq!['['] + crate::json::json_text(x) + seq![
            ']',
        ],
        crate::json::json_text(Json::Object(seq![(s, x)])) == seq!['{'] + (crate::json::quoted(s)
            + seq![':'] + crate::json::json_text(x)) + seq!['}'],
        a.len() > 0 ==> crate::json::items_text(a.push(x)) == crate::json::items_text(a) + seq![',']
            + crate::json::json_text(x),
        m.len() > 0 ==> crate::json::members_text(m.push((s, x))) == crate::json::members_text(m)
            + seq![','] + (crate::json::quoted(s) + seq![':'] + crate::json::json_text(x)),
{
    reveal_with_fuel(crate::json::json_text, 3);
    reveal_with_fuel(crate::json::items_text, 3);
    reveal_with_fuel(crate::json::members_text, 3);
    assert(a.push(x).drop_last() =~= a);
    assert(m.push((s, x)).drop_last() =~= m);
    assert(seq![x].last() == x);
    assert(seq![(s, x)].last() == (s, x));
}

/// A text in quotes is as it is, but for quotes, backslashes and control
/// characters, which are escaped.
pub proof fn texts_are_quoted(a: Seq<char>, b: Seq<char>)
    ensures
        crate::json::quoted(a) == seq!['"'] + crate::json::escaped(a) + seq!['"'],
        crate::json::escaped(a + b) == crate::json::escaped(a) + crate::json::escaped(b),
        (forall|i: int|
            0 <= i < a.len() ==> (#[trigger] a[i]) != '"' && a[i] != '\\' && a[i] as int >= 0x20)
            ==> crate::json::escaped(a) == a,
        crate::json::escaped_char('"') == seq!['\\', '"'],
        crate::json::escaped_char('\\') == seq!['\\', '\\'],
        crate::json::escaped_char('\n') == seq!['\\', 'n'],
    decreases a.len() + b.len(),
{
    if b.len() > 0 {
        texts_are_quoted(a, b.drop_last());
        assert((a + b).drop_last() =~= a + b.drop_last());
        assert(crate::json::escaped(a + b) =~= crate::json::escaped(a) + crate::json::escaped(b));
    } else {
        assert(a + b =~= a);
        assert(crate::json::escaped(a + b) =~= crate::json::escaped(a) + crate::json::escaped(b));
        if a.len() > 0 {
            let t = a.drop_last();
            texts_are_quoted(t, b);
            if forall|i: int|
                0 <= i < a.len() ==> (#[trigger] a[i]) != '"' && a[i] != '\\' && a[i] as int
                    >= 0x20 {
                assert forall|i: int| 0 <= i < t.len() implies (#[trigger] t[i]) != '"' && t[i]
                    != '\\' && t[i] as int >= 0x20 by {
                    assert(t[i] == a[i]);
                }
                assert(a[a.len() - 1] == a.last());
                assert(crate::json::escaped_char(a.last()) == seq![a.last()]);
                assert(t + seq![a.last()] =~= a);
            }
        }
    }
    if b.len() > 0 {
        texts_are_quoted(a, Seq::empty());
    }
}

/// A number is read digit by digit, in tens; a plus sign may stand before it,
/// and nothing else is a number.
pub proof fn numbers_are_read_in_tens(s: Seq<char>, d: int, n: u64)
    requires
        0 <= d <= 9,
    ensures
        crate::numbers::parsed_u64(seq![crate::numbers::digit(d)]) == Some(d as u64),
        s.len() > 0 && s[0] != '+' && crate::numbers::parsed_u64(s) == Some(n) && n * 10 + d
            <= u64::MAX ==> crate::numbers::parsed_u64(s.push(crate::numbers::digit(d))) == Some(
            (n * 10 + d) as u64,
        ),
        s.len() > 0 && s[0] != '+' ==> crate::numbers::parsed_u64(seq!['+'] + s)
            == crate::numbers::parsed_u64(s),
        s.len() == 0 ==> crate::numbers::parsed_u64(s) is None,
        (exists|i: int| 0 < i < s.len() && !('0' <= #[trigger] s[i] <= '9'))
            ==> crate::numbers::parsed_u64(s) is None,
{
    let one = seq![crate::numbers::digit(d)];
    assert(one.drop_last() =~= Seq::empty());
    assert(crate::numbers::digits_value(one.drop_last()) == 0);
    assert(crate::numbers::digit(d) as int == '0' as int + d);
    assert(crate::numbers::digits_value(one) == d);
    let t = s.push(crate::numbers::digit(d));
    assert(t.drop_last() =~= s);
    if s.len() > 0 {
        assert(t[0] == s[0]);
        assert((seq!['+'] + s).skip(1) =~= s);
    }
    if s.len() > 0 && s[0] != '+' && crate::numbers::parsed_u64(s) == Some(n) && n * 10 + d
        <= u64::MAX {
        assert(crate::numbers::all_digits(t)) by {
            assert forall|i: int| 0 <= i < t.len() implies crate::numbers::is_digit(
                #[trigger] t[i],
            ) by {
                if i < s.len() {
                    assert(t[i] == s[i]);
                }
            }
        }
        assert(crate::numbers::digits_value(t) == n * 10 + d);
    }
    if exists|i: int| 0 < i < s.len() && !('0' <= #[trigger] s[i] <= '9') {
        let i = choose|i: int| 0 < i < s.len() && !('0' <= #[trigger] s[i] <= '9');
        if s[0] == '+' {
            assert(s.skip(1)[i - 1] == s[i]);
        }
    }
}

} // verus!
