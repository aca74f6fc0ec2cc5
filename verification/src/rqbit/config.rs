//! The client's connection settings and the URLs it builds from them.

use vstd::prelude::*;
use crate::plugin::{opt_chars, config_text, config_value};
use crate::text::{
    chars_of, trim, trim_bounds, string_from_range, lower_seq, lower_chars, chars_eq_str,
    trim_end_char, trim_start_char, trim_end_char_index, trim_start_char_index, push_all,
    push_range, contains_seq, contains_chars, decimal, u64_to_string,
};

verus! {

/// A boolean configuration value: `1`, `true`, `yes` or `on` in any ASCII
/// case is true, any other text false, and an absent value `default`.
pub open spec fn config_flag(raw: Option<Seq<char>>, default: bool) -> bool {
    match config_text(raw) {
        Some(v) => {
            let l = lower_seq(v);
            l == "1"@ || l == "true"@ || l == "yes"@ || l == "on"@
        },
        None => default,
    }
}

/// Reads a raw boolean configuration value, with `default` when it is absent or blank.
pub fn config_bool(raw: Option<String>, default: bool) -> (b: bool)
    ensures
        b == config_flag(opt_chars(raw), default),
{
    match config_value(raw) {
        Some(v) => {
            let l = lower_chars(&chars_of(v.as_str()));
            chars_eq_str(&l, "1") || chars_eq_str(&l, "true") || chars_eq_str(&l, "yes")
                || chars_eq_str(&l, "on")
        },
        None => default,
    }
}

/// The configuration of one RQBit instance.
#[derive(Debug)]
pub struct RqbitConfig {
    pub base_url: String,
}

/// `scheme://host:port/url_base` with the slashes around `url_base` and at the
/// end removed, and the defaults `localhost`, `3030`, `/` and plain HTTP.
pub open spec fn rqbit_base_url(
    host: Option<Seq<char>>,
    port: Option<Seq<char>>,
    url_base: Option<Seq<char>>,
    use_ssl: Option<Seq<char>>,
) -> Seq<char> {
    let h = match config_text(host) {
        Some(v) => v,
        None => "localhost"@,
    };
    let p = match config_text(port) {
        Some(v) => v,
        None => "3030"@,
    };
    let b = match config_text(url_base) {
        Some(v) => v,
        None => "/"@,
    };
    let scheme = if config_flag(use_ssl, false) {
        "https"@
    } else {
        "http"@
    };
    trim_end_char(
        scheme + "://"@ + h + ":"@ + p + "/"@ + trim_start_char(trim_end_char(b, '/'), '/'),
        '/',
    )
}

impl RqbitConfig {
    /// The configuration read from the raw `host`, `port`, `url_base` and
    /// `use_ssl` settings of the plugin.
    pub fn from_extism(
        host: Option<String>,
        port: Option<String>,
        url_base: Option<String>,
        use_ssl: Option<String>,
    ) -> (c: RqbitConfig)
        ensures
            c.base_url@ == rqbit_base_url(
                opt_chars(host),
                opt_chars(port),
                opt_chars(url_base),
                opt_chars(use_ssl),
            ),
    {
        let h = match config_value(host) {
            Some(v) => v,
            None => String::from_str("localhost"),
        };
        let p = match config_value(port) {
            Some(v) => v,
            None => String::from_str("3030"),
        };
        let b = match config_value(url_base) {
            Some(v) => v,
            None => String::from_str("/"),
        };
        let ssl = config_bool(use_ssl, false);
        let mut raw = if ssl {
            String::from_str("https")
        } else {
            String::from_str("http")
        };
        push_all(&mut raw, "://");
        push_all(&mut raw, h.as_str());
        push_all(&mut raw, ":");
        push_all(&mut raw, p.as_str());
        push_all(&mut raw, "/");
        let bc = chars_of(b.as_str());
        let j = trim_end_char_index(&bc, bc.len(), '/');
        let inner = chars_of(string_from_range(&bc, 0, j).as_str());
        let i = trim_start_char_index(&inner, 0, '/');
        push_range(&mut raw, &inner, i, inner.len());
        let rc = chars_of(raw.as_str());
        let end = trim_end_char_index(&rc, rc.len(), '/');
        proof {
            assert(bc@.subrange(0, bc@.len() as int) =~= bc@);
            assert(inner@.subrange(0, inner@.len() as int) =~= inner@);
            assert(rc@.subrange(0, rc@.len() as int) =~= rc@);
        }
        RqbitConfig { base_url: string_from_range(&rc, 0, end) }
    }
}

/// `base_url` without trailing slashes, joined to `path` with one slash
/// unless `path` is empty or starts with one.
pub open spec fn joined_api_url(base_url: Seq<char>, path: Seq<char>) -> Seq<char> {
    let sep = if path.len() == 0 || path[0] == '/' {
        Seq::<char>::empty()
    } else {
        "/"@
    };
    trim_end_char(base_url, '/') + sep + path
}

/// The URL of `path` on the configured RQBit instance.
pub fn api_url(config: &RqbitConfig, path: &str) -> (url: String)
    ensures
        url@ == joined_api_url(config.base_url@, path@),
{
    let bc = chars_of(config.base_url.as_str());
    let end = trim_end_char_index(&bc, bc.len(), '/');
    let mut url = string_from_range(&bc, 0, end);
    let pc = chars_of(path);
    if !(pc.len() == 0 || pc[0] == '/') {
        push_all(&mut url, "/");
    }
    push_all(&mut url, path);
    proof {
        assert(bc@.subrange(0, bc@.len() as int) =~= bc@);
        if pc@.len() == 0 || pc@[0] == '/' {
            assert(url@ =~= trim_end_char(config.base_url@, '/') + Seq::<char>::empty() + path@);
        }
    }
    url
}

/// The body of an RQBit answer, or the failure an HTTP error status makes of it.
pub fn response_text(status: u16, body: String) -> (r: Result<String, String>)
    ensures
        status < 400 ==> r == Ok::<String, String>(body),
        status >= 400 ==> (r matches Err(m) && m@ == "RQBit returned HTTP "@ + decimal(status as nat) + ": "@
            + body@),
{
    if status >= 400 {
        let mut m = String::from_str("RQBit returned HTTP ");
        push_all(&mut m, u64_to_string(status as u64).as_str());
        push_all(&mut m, ": ");
        push_all(&mut m, body.as_str());
        return Err(m);
    }
    Ok(body)
}

/// Whether a URL names this machine: after trimming and lowercasing it holds
/// `://localhost`, `://127.0.0.1` or `://[::1]`.
pub open spec fn names_localhost(url: Seq<char>) -> bool {
    let l = lower_seq(trim(url));
    contains_seq(l, "://localhost"@) || contains_seq(l, "://127.0.0.1"@) || contains_seq(
        l,
        "://[::1]"@,
    )
}

/// Whether `url` points at this machine.
pub fn is_localhost_url(url: &str) -> (r: bool)
    ensures
        r == names_localhost(url@),
{
    let cs = chars_of(url);
    let (i, j) = trim_bounds(&cs);
    let t = chars_of(string_from_range(&cs, i, j).as_str());
    let l = lower_chars(&t);
    contains_chars(&l, &chars_of("://localhost")) || contains_chars(&l, &chars_of("://127.0.0.1"))
        || contains_chars(&l, &chars_of("://[::1]"))
}

} // verus!
