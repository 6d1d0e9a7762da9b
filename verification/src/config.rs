//! Runtime settings and their environment overrides.

use vstd::prelude::*;
use std::path::PathBuf;
use crate::text::{chars_of, parse_u32, parse_u32_spec, string_of};

verus! {

broadcast use vstd::string::group_string_axioms;

/// `std::path::PathBuf`, carried through opaquely.
#[verifier::external_type_specification]
#[verifier::external_body]
pub struct ExPathBuf(PathBuf);

/// The site's runtime settings.
#[derive(Debug)]
pub struct Settings {
    pub site_name: String,
    pub site_description: String,
    pub site_url: String,
    pub host: String,
    pub port: u16,
    pub database_url: String,
    pub static_dir: PathBuf,
    pub upload_dir: PathBuf,
    pub posts_per_page: u32,
}

/// The values of the environment variables that override settings, where set.
#[derive(Debug, Clone)]
pub struct EnvOverrides {
    pub site_name: Option<String>,
    pub site_description: Option<String>,
    pub site_url: Option<String>,
    pub host: Option<String>,
    pub port: Option<String>,
    pub database_url: Option<String>,
    pub posts_per_page: Option<String>,
}

/// `str::parse::<u16>`: an optional `+`, then one or more decimal digits whose value fits.
pub open spec fn parse_u16_spec(s: Seq<char>) -> Option<u16> {
    match parse_u32_spec(s) {
        Some(n) if n <= u16::MAX => Some(n as u16),
        _ => None,
    }
}

/// `s` without its trailing `/` characters.
pub open spec fn strip_trailing_slashes(s: Seq<char>) -> Seq<char>
    decreases s.len(),
{
    if s.len() > 0 && s.last() == '/' {
        strip_trailing_slashes(s.drop_last())
    } else {
        s
    }
}

/// `n` clamped to `1..=100`.
pub open spec fn clamp_per_page(n: u32) -> u32 {
    if n < 1 {
        1
    } else if n > 100 {
        100
    } else {
        n
    }
}

/// A port number as `str::parse::<u16>` reads it.
pub fn parse_port(s: &str) -> (r: Option<u16>)
    ensures
        r == parse_u16_spec(s@),
{
    match parse_u32(s) {
        Some(n) => {
            if n <= 0xffff {
                Some(n as u16)
            } else {
                None
            }
        },
        None => None,
    }
}

/// The site URL without trailing slashes.
pub fn normalize_site_url(url: &str) -> (r: String)
    ensures
        r@ == strip_trailing_slashes(url@),
{
    let v = chars_of(url);
    let mut end = v.len();
    assert(v@.take(end as int) =~= v@);
    while end > 0 && v[end - 1] == '/'
        invariant
            end <= v.len(),
            strip_trailing_slashes(v@) == strip_trailing_slashes(v@.take(end as int)),
        decreases end,
    {
        assert(v@.take(end as int).drop_last() =~= v@.take(end - 1));
        end -= 1;
    }
    let mut out: Vec<char> = Vec::new();
    let mut i: usize = 0;
    while i < end
        invariant
            end <= v.len(),
            i <= end,
            out@ == v@.take(i as int),
        decreases end - i,
    {
        out.push(v[i]);
        i += 1;
        assert(out@ =~= v@.take(i as int));
    }
    proof {
        let t = v@.take(end as int);
        if end > 0 {
            assert(t.last() == v@[end - 1]);
        }
        assert(strip_trailing_slashes(t) == t);
    }
    string_of(&out)
}

/// Applies the environment overrides: text settings are replaced, `SITE_URL` loses its
/// trailing slashes, `PORT` must parse as a port and `POSTS_PER_PAGE` as a `u32`, which is
/// clamped to `1..=100`. A value that does not parse is answered as `Err` with that value.
pub fn apply_env_overrides(settings: Settings, env: EnvOverrides) -> (r: Result<Settings, String>)
    ensures
        match r {
            Ok(s) => {
                &&& env.port matches Some(p) ==> parse_u16_spec(p@) == Some(s.port)
                &&& env.port is None ==> s.port == settings.port
                &&& env.posts_per_page matches Some(p) ==> parse_u32_spec(p@) matches Some(n)
                    && s.posts_per_page == clamp_per_page(n)
                &&& env.posts_per_page is None ==> s.posts_per_page == settings.posts_per_page
                &&& s.site_name@ == (match env.site_name {
                    Some(v) => v@,
                    None => settings.site_name@,
                })
                &&& s.site_description@ == (match env.site_description {
                    Some(v) => v@,
                    None => settings.site_description@,
                })
                &&& s.site_url@ == strip_trailing_slashes(
                    match env.site_url {
                        Some(v) => v@,
                        None => settings.site_url@,
                    },
                )
                &&& s.host@ == (match env.host {
                    Some(v) => v@,
                    None => settings.host@,
                })
                &&& s.database_url@ == (match env.database_url {
                    Some(v) => v@,
                    None => settings.database_url@,
                })
                &&& s.static_dir == settings.static_dir
                &&& s.upload_dir == settings.upload_dir
            },
            Err(bad) => {
                ||| env.port matches Some(p) && parse_u16_spec(p@) is None && bad@ == p@
                ||| env.posts_per_page matches Some(p) && parse_u32_spec(p@) is None && bad@
                    == p@ && (env.port matches Some(q) ==> parse_u16_spec(q@) is Some)
            },
        },
        r is Err <==> (env.port matches Some(p) && parse_u16_spec(p@) is None) || (
        env.posts_per_page matches Some(p) && parse_u32_spec(p@) is None),
{
    let port = match &env.port {
        Some(p) => match parse_port(p.as_str()) {
            Some(n) => n,
            None => {
                return Err(p.clone());
            },
        },
        None => settings.port,
    };
    let posts_per_page = match &env.posts_per_page {
        Some(p) => match parse_u32(p.as_str()) {
            Some(n) => {
                if n < 1 {
                    1
                } else if n > 100 {
                    100
                } else {
                    n
                }
            },
            None => {
                return Err(p.clone());
            },
        },
        None => settings.posts_per_page,
    };
    let site_url = match &env.site_url {
        Some(v) => normalize_site_url(v.as_str()),
        None => normalize_site_url(settings.site_url.as_str()),
    };
    Ok(Settings {
        site_name: match env.site_name {
            Some(v) => v,
            None => settings.site_name,
        },
        site_description: match env.site_description {
            Some(v) => v,
            None => settings.site_description,
        },
        site_url,
        host: match env.host {
            Some(v) => v,
            None => settings.host,
        },
        port,
        database_url: match env.database_url {
            Some(v) => v,
            None => settings.database_url,
        },
        static_dir: settings.static_dir,
        upload_dir: settings.upload_dir,
        posts_per_page,
    })
}

/// A normalised site URL ends in no slash, and normalising it again changes nothing.
pub proof fn law_site_url_has_no_trailing_slash(url: Seq<char>)
    ensures
        strip_trailing_slashes(url).len() == 0 || strip_trailing_slashes(url).last() != '/',
        strip_trailing_slashes(strip_trailing_slashes(url)) == strip_trailing_slashes(url),
    decreases url.len(),
{
    if url.len() > 0 && url.last() == '/' {
        law_site_url_has_no_trailing_slash(url.drop_last());
    }
}

} // verus!
