//! Parsed URLs, through the `url` crate.
//!
//! A `url::Url` is more than its serialization: beside the text it keeps
//! where each part starts and ends, and what kind of host it has, and two
//! URLs with the same text can differ there (an edit such as `set_path` can
//! leave text that would parse into other parts). The library therefore
//! keeps, beside the parsed value, the record of plain values it is made
//! of: the serialization, the offsets of its parts (as `url::Position`
//! gives them) and the kind of its host. Those determine the parsed value,
//! and the names below state every component, and every edit, as a
//! function of that record.

use vstd::prelude::*;
use url::Position;

verus! {

#[verifier::external_type_specification]
#[verifier::external_body]
pub struct ExUrl(url::Url);

/// What a parsed URL is made of: its serialization (`Url::as_str`); the
/// byte offsets of the positions after the scheme, after the username,
/// before and after the host, before and after the path, before and after
/// the query, and before the fragment (`url::Position`, in that order);
/// and the kind of its host (0 for none, 1 for a domain, 4 for an IPv4 and
/// 6 for an IPv6 address).
pub struct UrlRecord {
    pub href: Seq<char>,
    pub offsets: Seq<usize>,
    pub host_kind: u8,
}

/// A parsed URL and the record it is made of.
pub struct WebUrl {
    inner: url::Url,
    href: String,
    offsets: Vec<usize>,
    host_kind: u8,
}

impl View for WebUrl {
    type V = UrlRecord;

    /// The record of the URL.
    closed spec fn view(&self) -> UrlRecord {
        UrlRecord { href: self.href@, offsets: self.offsets@, host_kind: self.host_kind }
    }
}

/// The host of a URL, as `Url::host` tells it apart.
pub enum UrlHost {
    Domain(String),
    Ipv4(String),
    Ipv6(String),
}

/// The host kind: 0 for a domain, 4 for an IPv4 address, 6 for an IPv6
/// address, with the host's text (the address as its `Display` writes it).
pub open spec fn host_view(h: UrlHost) -> (u8, Seq<char>) {
    match h {
        UrlHost::Domain(s) => (0u8, s@),
        UrlHost::Ipv4(s) => (4u8, s@),
        UrlHost::Ipv6(s) => (6u8, s@),
    }
}

/// The record of `Url::parse(input)`, `None` where it fails.
pub uninterp spec fn url_parse_result(input: Seq<char>) -> Option<UrlRecord>;

/// The record of `base.join(input)`, `None` where it fails.
pub uninterp spec fn url_join_result(base: UrlRecord, input: Seq<char>) -> Option<UrlRecord>;

/// `Url::scheme`.
pub uninterp spec fn url_scheme_of(u: UrlRecord) -> Seq<char>;

/// `Url::username`.
pub uninterp spec fn url_username_of(u: UrlRecord) -> Seq<char>;

/// `Url::password`.
pub uninterp spec fn url_password_of(u: UrlRecord) -> Option<Seq<char>>;

/// `Url::host_str`.
pub uninterp spec fn url_host_str_of(u: UrlRecord) -> Option<Seq<char>>;

/// `Url::host`, as kind and text (see `host_view`).
pub uninterp spec fn url_host_of(u: UrlRecord) -> Option<(u8, Seq<char>)>;

/// `Url::port`.
pub uninterp spec fn url_port_of(u: UrlRecord) -> Option<u16>;

/// `Url::path`.
pub uninterp spec fn url_path_of(u: UrlRecord) -> Seq<char>;

/// `Url::query`.
pub uninterp spec fn url_query_of(u: UrlRecord) -> Option<Seq<char>>;

/// `Url::fragment`.
pub uninterp spec fn url_fragment_of(u: UrlRecord) -> Option<Seq<char>>;

/// `Url::origin().ascii_serialization()`.
pub uninterp spec fn url_origin_of(u: UrlRecord) -> Seq<char>;

/// The record after `Url::set_scheme(scheme)`.
pub uninterp spec fn url_after_set_scheme(u: UrlRecord, scheme: Seq<char>) -> UrlRecord;

/// The record after `Url::set_username(name)`.
pub uninterp spec fn url_after_set_username(u: UrlRecord, name: Seq<char>) -> UrlRecord;

/// The record after `Url::set_password(password)`.
pub uninterp spec fn url_after_set_password(u: UrlRecord, password: Option<Seq<char>>) -> UrlRecord;

/// Whether `Url::set_host(host)` succeeds, and the record after it.
pub uninterp spec fn url_set_host_result(u: UrlRecord, host: Option<Seq<char>>) -> (bool, UrlRecord);

/// The record after `Url::set_port(port)`.
pub uninterp spec fn url_after_set_port(u: UrlRecord, port: Option<u16>) -> UrlRecord;

/// The record after `Url::set_path(path)`.
pub uninterp spec fn url_after_set_path(u: UrlRecord, path: Seq<char>) -> UrlRecord;

/// The record after `Url::set_query(query)`.
pub uninterp spec fn url_after_set_query(u: UrlRecord, query: Option<Seq<char>>) -> UrlRecord;

/// The record after `Url::set_fragment(fragment)`.
pub uninterp spec fn url_after_set_fragment(u: UrlRecord, fragment: Option<Seq<char>>) -> UrlRecord;

/// The views of an optional string.
pub open spec fn opt_view(o: Option<&str>) -> Option<Seq<char>> {
    match o {
        Some(s) => Some(s@),
        None => None,
    }
}

/// The text of the error that `Url::parse(input)` gives where it fails
/// (its `ParseError` written with `Display`).
pub uninterp spec fn url_parse_error_text(input: Seq<char>) -> Seq<char>;

/// The text of the error that `base.join(input)` gives where it fails.
pub uninterp spec fn url_join_error_text(base: UrlRecord, input: Seq<char>) -> Seq<char>;

/// Pairs a parsed URL with the record it is made of (see `UrlRecord`):
/// `Url::as_str`, the lengths of the slices up to each recorded
/// `url::Position`, and the variant of `Url::host`. The wrappers that make
/// or change a URL hand their result through here; what they state of the
/// record, they state in their own contracts.
#[verifier::external_body]
fn record_of(inner: url::Url) -> WebUrl {
    let href = inner.as_str().to_string();
    let mut offsets = Vec::new();
    for p in [Position::AfterScheme, Position::AfterUsername, Position::BeforeHost, Position::AfterHost,
        Position::BeforePath, Position::AfterPath, Position::BeforeQuery, Position::AfterQuery,
        Position::BeforeFragment] {
        offsets.push(inner[..p].len());
    }
    let host_kind = match inner.host() {
        None => 0,
        Some(url::Host::Domain(_)) => 1,
        Some(url::Host::Ipv4(_)) => 4,
        Some(url::Host::Ipv6(_)) => 6,
    };
    WebUrl { inner, href, offsets, host_kind }
}

/// `Url::parse`: the parsed URL, or the text of the parse error.
#[verifier::external_body]
pub(crate) fn url_parse(input: &str) -> (r: Result<WebUrl, String>)
    ensures
        match r {
            Ok(u) => url_parse_result(input@) == Some(u@),
            Err(e) => url_parse_result(input@) is None && e@ == url_parse_error_text(input@),
        },
{
    match url::Url::parse(input) {
        Ok(u) => Ok(record_of(u)),
        Err(e) => Err(e.to_string()),
    }
}

/// `Url::join`: `input` resolved against `base`, or the text of the error.
#[verifier::external_body]
pub(crate) fn url_join(base: &WebUrl, input: &str) -> (r: Result<WebUrl, String>)
    ensures
        match r {
            Ok(u) => url_join_result(base@, input@) == Some(u@),
            Err(e) => url_join_result(base@, input@) is None && e@ == url_join_error_text(base@, input@),
        },
{
    match base.inner.join(input) {
        Ok(u) => Ok(record_of(u)),
        Err(e) => Err(e.to_string()),
    }
}

impl WebUrl {
    /// `Url::as_str`: the serialization.
    pub fn href(&self) -> (r: String)
        ensures
            r@ == self@.href,
    {
        self.href.clone()
    }

    /// `Url::scheme`.
    #[verifier::external_body]
    pub(crate) fn scheme(&self) -> (r: String)
        ensures
            r@ == url_scheme_of(self@),
    {
        self.inner.scheme().to_string()
    }

    /// `Url::username`.
    #[verifier::external_body]
    pub(crate) fn username(&self) -> (r: String)
        ensures
            r@ == url_username_of(self@),
    {
        self.inner.username().to_string()
    }

    /// `Url::password`.
    #[verifier::external_body]
    pub(crate) fn password(&self) -> (r: Option<String>)
        ensures
            match r {
                Some(p) => url_password_of(self@) == Some(p@),
                None => url_password_of(self@) is None,
            },
    {
        self.inner.password().map(|p| p.to_string())
    }

    /// `Url::host_str`.
    #[verifier::external_body]
    pub(crate) fn host_str(&self) -> (r: Option<String>)
        ensures
            match r {
                Some(p) => url_host_str_of(self@) == Some(p@),
                None => url_host_str_of(self@) is None,
            },
    {
        self.inner.host_str().map(|p| p.to_string())
    }

    /// `Url::host`, with IP addresses written as their `Display` writes them.
    #[verifier::external_body]
    pub(crate) fn host(&self) -> (r: Option<UrlHost>)
        ensures
            match r {
                Some(h) => url_host_of(self@) == Some(host_view(h)),
                None => url_host_of(self@) is None,
            },
    {
        match self.inner.host() {
            Some(url::Host::Domain(d)) => Some(UrlHost::Domain(d.to_string())),
            Some(url::Host::Ipv4(ip)) => Some(UrlHost::Ipv4(ip.to_string())),
            Some(url::Host::Ipv6(ip)) => Some(UrlHost::Ipv6(ip.to_string())),
            None => None,
        }
    }

    /// `Url::port`.
    #[verifier::external_body]
    pub(crate) fn port(&self) -> (r: Option<u16>)
        ensures
            r == url_port_of(self@),
    {
        self.inner.port()
    }

    /// `Url::path`.
    #[verifier::external_body]
    pub(crate) fn path(&self) -> (r: String)
        ensures
            r@ == url_path_of(self@),
    {
        self.inner.path().to_string()
    }

    /// `Url::query`.
    #[verifier::external_body]
    pub(crate) fn query(&self) -> (r: Option<String>)
        ensures
            match r {
                Some(p) => url_query_of(self@) == Some(p@),
                None => url_query_of(self@) is None,
            },
    {
        self.inner.query().map(|p| p.to_string())
    }

    /// `Url::fragment`.
    #[verifier::external_body]
    pub(crate) fn fragment(&self) -> (r: Option<String>)
        ensures
            match r {
                Some(p) => url_fragment_of(self@) == Some(p@),
                None => url_fragment_of(self@) is None,
            },
    {
        self.inner.fragment().map(|p| p.to_string())
    }

    /// `Url::origin().ascii_serialization()`.
    #[verifier::external_body]
    pub(crate) fn origin(&self) -> (r: String)
        ensures
            r@ == url_origin_of(self@),
    {
        self.inner.origin().ascii_serialization()
    }

    /// `Url::set_scheme`, whose failure leaves the URL as it was.
    #[verifier::external_body]
    pub(crate) fn set_scheme(&mut self, scheme: &str)
        ensures
            final(self)@ == url_after_set_scheme(old(self)@, scheme@),
    {
        let _ = self.inner.set_scheme(scheme);
        *self = record_of(self.inner.clone());
    }

    /// `Url::set_username`, whose failure leaves the URL as it was.
    #[verifier::external_body]
    pub(crate) fn set_username(&mut self, name: &str)
        ensures
            final(self)@ == url_after_set_username(old(self)@, name@),
    {
        let _ = self.inner.set_username(name);
        *self = record_of(self.inner.clone());
    }

    /// `Url::set_password`, whose failure leaves the URL as it was.
    #[verifier::external_body]
    pub(crate) fn set_password(&mut self, password: Option<&str>)
        ensures
            final(self)@ == url_after_set_password(old(self)@, opt_view(password)),
    {
        let _ = self.inner.set_password(password);
        *self = record_of(self.inner.clone());
    }

    /// `Url::set_host`: whether it succeeded.
    #[verifier::external_body]
    pub(crate) fn set_host(&mut self, host: Option<&str>) -> (ok: bool)
        ensures
            (ok, final(self)@) == url_set_host_result(old(self)@, opt_view(host)),
    {
        let ok = self.inner.set_host(host).is_ok();
        *self = record_of(self.inner.clone());
        ok
    }

    /// `Url::set_port`, whose failure leaves the URL as it was.
    #[verifier::external_body]
    pub(crate) fn set_port(&mut self, port: Option<u16>)
        ensures
            final(self)@ == url_after_set_port(old(self)@, port),
    {
        let _ = self.inner.set_port(port);
        *self = record_of(self.inner.clone());
    }

    /// `Url::set_path`.
    #[verifier::external_body]
    pub(crate) fn set_path(&mut self, path: &str)
        ensures
            final(self)@ == url_after_set_path(old(self)@, path@),
    {
        self.inner.set_path(path);
        *self = record_of(self.inner.clone());
    }

    /// `Url::set_query`.
    #[verifier::external_body]
    pub(crate) fn set_query(&mut self, query: Option<&str>)
        ensures
            final(self)@ == url_after_set_query(old(self)@, opt_view(query)),
    {
        self.inner.set_query(query);
        *self = record_of(self.inner.clone());
    }

    /// `Url::set_fragment`.
    #[verifier::external_body]
    pub(crate) fn set_fragment(&mut self, fragment: Option<&str>)
        ensures
            final(self)@ == url_after_set_fragment(old(self)@, opt_view(fragment)),
    {
        self.inner.set_fragment(fragment);
        *self = record_of(self.inner.clone());
    }
}

} // verus!
