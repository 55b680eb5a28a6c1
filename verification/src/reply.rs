//! What the portal answers a browser: a status, a body, and cookies to set
//! and to remove.

use vstd::prelude::*;

verus! {

/// A cookie to set, sealed by the server under its cookie key.
#[derive(Debug)]
pub struct Cookie {
    pub name: &'static str,
    pub value: String,
    pub path: &'static str,
    pub http_only: bool,
    pub secure: bool,
    /// Whether `SameSite` is `Lax`.
    pub same_site_lax: bool,
    pub max_age_secs: i64,
}

/// A cookie, in specifications.
pub ghost struct CookieModel {
    pub name: Seq<char>,
    pub value: Seq<char>,
    pub path: Seq<char>,
    pub http_only: bool,
    pub secure: bool,
    pub same_site_lax: bool,
    pub max_age_secs: i64,
}

impl View for Cookie {
    type V = CookieModel;

    open spec fn view(&self) -> CookieModel {
        CookieModel {
            name: self.name@,
            value: self.value@,
            path: self.path@,
            http_only: self.http_only,
            secure: self.secure,
            same_site_lax: self.same_site_lax,
            max_age_secs: self.max_age_secs,
        }
    }
}

/// A cookie that the portal sets: for the whole site, out of reach of scripts,
/// over HTTPS only, and not sent with requests from other sites but links.
pub open spec fn portal_cookie(name: Seq<char>, value: Seq<char>, max_age_secs: i64) -> CookieModel {
    CookieModel {
        name,
        value,
        path: "/"@,
        http_only: true,
        secure: true,
        same_site_lax: true,
        max_age_secs,
    }
}

impl Cookie {
    pub fn new(name: &'static str, value: String, max_age_secs: i64) -> (c: Cookie)
        ensures
            c@ == portal_cookie(name@, value@, max_age_secs),
    {
        Cookie {
            name,
            value,
            path: "/",
            http_only: true,
            secure: true,
            same_site_lax: true,
            max_age_secs,
        }
    }
}

/// The body of an answer.
#[derive(Debug)]
pub enum Body {
    Empty,
    Text(String),
    Html(String),
    Json(String),
    /// No body; the browser is sent elsewhere.
    Redirect(String),
}

/// The body of an answer, in specifications.
pub ghost enum BodyModel {
    Empty,
    Text(Seq<char>),
    Html(Seq<char>),
    Json(Seq<char>),
    Redirect(Seq<char>),
}

impl View for Body {
    type V = BodyModel;

    open spec fn view(&self) -> BodyModel {
        match self {
            Body::Empty => BodyModel::Empty,
            Body::Text(s) => BodyModel::Text(s@),
            Body::Html(s) => BodyModel::Html(s@),
            Body::Json(s) => BodyModel::Json(s@),
            Body::Redirect(s) => BodyModel::Redirect(s@),
        }
    }
}

/// An answer to a browser.
#[derive(Debug)]
pub struct Reply {
    pub status: u16,
    pub body: Body,
    pub set_cookie: Option<Cookie>,
    /// The name of a cookie to remove.
    pub remove_cookie: Option<&'static str>,
}

/// An answer, in specifications.
pub ghost struct ReplyModel {
    pub status: u16,
    pub body: BodyModel,
    pub set_cookie: Option<CookieModel>,
    pub remove_cookie: Option<Seq<char>>,
}

/// A cookie that may be set, in specifications.
pub open spec fn cookie_view(c: Option<Cookie>) -> Option<CookieModel> {
    match c {
        Some(c) => Some(c@),
        None => None,
    }
}

impl View for Reply {
    type V = ReplyModel;

    open spec fn view(&self) -> ReplyModel {
        ReplyModel {
            status: self.status,
            body: self.body@,
            set_cookie: cookie_view(self.set_cookie),
            remove_cookie: match self.remove_cookie {
                Some(n) => Some(n@),
                None => None,
            },
        }
    }
}

/// An answer that touches no cookie.
pub open spec fn plain(status: u16, body: BodyModel) -> ReplyModel {
    ReplyModel { status, body, set_cookie: None, remove_cookie: None }
}

/// An answer that sends the browser elsewhere with a `GET`.
pub open spec fn redirect(to: Seq<char>) -> ReplyModel {
    plain(303, BodyModel::Redirect(to))
}

/// An answer that also sets a cookie, if there is one to set.
pub open spec fn setting(r: ReplyModel, cookie: Option<CookieModel>) -> ReplyModel {
    ReplyModel { set_cookie: cookie, ..r }
}

impl Reply {
    pub fn plain(status: u16, body: Body) -> (r: Reply)
        ensures
            r@ == plain(status, body@),
    {
        Reply { status, body, set_cookie: None, remove_cookie: None }
    }

    pub fn text(status: u16, text: &str) -> (r: Reply)
        ensures
            r@ == plain(status, BodyModel::Text(text@)),
    {
        Reply::plain(status, Body::Text(text.to_owned()))
    }

    pub fn redirect(to: &str) -> (r: Reply)
        ensures
            r@ == redirect(to@),
    {
        Reply::plain(303, Body::Redirect(to.to_owned()))
    }

    /// This answer, setting a cookie if there is one to set.
    pub fn setting(self, cookie: Option<Cookie>) -> (r: Reply)
        ensures
            r@ == setting(self@, cookie_view(cookie)),
    {
        Reply {
            status: self.status,
            body: self.body,
            set_cookie: cookie,
            remove_cookie: self.remove_cookie,
        }
    }
}

} // verus!
