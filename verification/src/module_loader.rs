//! Resolution of ES module specifiers, and the check on a fetched module.
//!
//! The engine hands the loader the specifier of an import and the name of
//! the importing module; the loader resolves the specifier against that name,
//! or against the page's base URL where the importer has no usable URL.

use vstd::prelude::*;
use crate::text::{push_str, same_text, string_from};
use crate::weburl::{url_join, url_join_error_text, url_join_result, url_parse, url_parse_error_text, url_parse_result};

verus! {

/// The module loader: the page's base URL and the proxy that module
/// fetches go through.
#[derive(Clone)]
pub struct ObscuraModuleLoader {
    pub base_url: String,
    pub proxy_url: Option<String>,
}

/// The URL an import is resolved against: the page's base URL where the
/// importer's name is empty, starts with `<`, or is `.` or `about:blank`;
/// otherwise the importer's name.
pub open spec fn resolution_base(base: Seq<char>, page_base: Seq<char>) -> Seq<char> {
    if base.len() == 0 || base[0] == '<' || base == "."@ || base == "about:blank"@ {
        page_base
    } else {
        base
    }
}

/// Law: imports from the page itself (an empty, `<`-prefixed, `.` or
/// `about:blank` importer name) resolve against the page's base URL; any
/// other importer's imports resolve against the importer's own URL.
pub proof fn law_resolution_base(base: Seq<char>, page_base: Seq<char>)
    ensures
        base.len() == 0 || base[0] == '<' || base == "."@ || base == "about:blank"@ ==> resolution_base(base, page_base) == page_base,
        base.len() > 0 && base[0] != '<' && base != "."@ && base != "about:blank"@ ==> resolution_base(base, page_base) == base,
{
}

/// Resolving `name` against the URL `b`: the serialization of the joined URL,
/// or the text of the error from parsing `b` or from joining.
pub open spec fn resolution(b: Seq<char>, name: Seq<char>) -> Result<Seq<char>, Seq<char>> {
    match url_parse_result(b) {
        Some(h) => match url_join_result(h, name) {
            Some(r) => Ok(r.href),
            None => Err(url_join_error_text(h, name)),
        },
        None => Err(url_parse_error_text(b)),
    }
}

/// The views of a resolution result.
pub open spec fn result_text(r: Result<String, String>) -> Result<Seq<char>, Seq<char>> {
    match r {
        Ok(s) => Ok(s@),
        Err(e) => Err(e@),
    }
}

impl ObscuraModuleLoader {
    /// A loader for pages at `base_url`, fetching modules directly.
    pub fn new(base_url: &str) -> (l: ObscuraModuleLoader)
        ensures
            l.base_url@ == base_url@,
            l.proxy_url is None,
    {
        Self::with_proxy(base_url, None)
    }

    /// A loader for pages at `base_url`, fetching modules through
    /// `proxy_url` where it is given.
    pub fn with_proxy(base_url: &str, proxy_url: Option<String>) -> (l: ObscuraModuleLoader)
        ensures
            l.base_url@ == base_url@,
            l.proxy_url == proxy_url,
    {
        ObscuraModuleLoader { base_url: string_from(base_url), proxy_url }
    }

    /// Resolves the import `name` of the module named `base`.
    pub fn resolve(&self, base: &str, name: &str) -> (r: Result<String, String>)
        ensures
            result_text(r) == resolution(resolution_base(base@, self.base_url@), name@),
    {
        let use_page = base.is_empty() || starts_with_lt(base) || same_text(base, ".") || same_text(base, "about:blank");
        proof {
            reveal_strlit(".");
            reveal_strlit("about:blank");
        }
        let b: &str = if use_page { self.base_url.as_str() } else { base };
        assert(b@ == resolution_base(base@, self.base_url@));
        match url_parse(b) {
            Ok(u) => match url_join(&u, name) {
                Ok(j) => Ok(j.href()),
                Err(e) => Err(e),
            },
            Err(e) => Err(e),
        }
    }
}

/// Whether `s` starts with `<`.
fn starts_with_lt(s: &str) -> (r: bool)
    ensures
        r == (s@.len() > 0 && s@[0] == '<'),
{
    let cs = crate::text::chars_of(s);
    cs.len() > 0 && cs[0] == '<'
}

/// The message for a module whose response was not a success.
pub open spec fn module_status_error(url: Seq<char>, status_text: Seq<char>) -> Seq<char> {
    "Module "@ + url + " returned HTTP "@ + status_text
}

/// Checks the response to a module fetch: a success status (200 to 299)
/// passes; any other status is an error that names the module's URL and the
/// status as `status_text` writes it (code and reason phrase).
pub fn check_module_status(url: &str, status: u16, status_text: &str) -> (r: Result<(), String>)
    ensures
        match r {
            Ok(()) => 200 <= status <= 299,
            Err(e) => !(200 <= status <= 299) && e@ == module_status_error(url@, status_text@),
        },
{
    if 200 <= status && status <= 299 {
        Ok(())
    } else {
        let mut m = string_from("Module ");
        push_str(&mut m, url);
        push_str(&mut m, " returned HTTP ");
        push_str(&mut m, status_text);
        proof {
            reveal_strlit("Module ");
            reveal_strlit(" returned HTTP ");
        }
        assert(m@ =~= module_status_error(url@, status_text@));
        Err(m)
    }
}

} // verus!
