use vstd::prelude::*;

verus! {

/// Whether the path begins with a tilde component: `~` alone or `~/...`.
/// A name such as `~user` is not a tilde component and passes through.
pub open spec fn tilde_path(p: Seq<char>) -> bool {
    p.len() >= 1 && p[0] == '~' && (p.len() == 1 || p[1] == '/')
}

/// `home` joined with `rest`, adding one separator the way a path join
/// does: none after an empty home or one that already ends in `/`.
pub open spec fn joined(home: Seq<char>, rest: Seq<char>) -> Seq<char> {
    if home.len() == 0 {
        rest
    } else if home.last() == '/' {
        home + rest
    } else {
        home + ("/")@ + rest
    }
}

/// Tilde expansion of `p` against the home directory, if one is known.
/// A path without a leading tilde component needs no home and passes
/// through; a tilde component without a known home cannot be expanded.
pub open spec fn tilde_expanded(p: Seq<char>, home: Option<Seq<char>>) -> Option<Seq<char>> {
    if !tilde_path(p) {
        Option::Some(p)
    } else {
        match home {
            Option::None => Option::None,
            Option::Some(h) => if p.len() == 1 {
                Option::Some(h)
            } else {
                Option::Some(joined(h, p.skip(2)))
            },
        }
    }
}

/// The view of an optional owned string.
pub open spec fn opt_view(s: Option<String>) -> Option<Seq<char>> {
    match s {
        Option::Some(v) => Option::Some(v@),
        Option::None => Option::None,
    }
}

/// Relies on dirs::home_dir: the platform's home directory, if the
/// environment names one. The result depends on the environment, so
/// nothing is promised of it.
#[verifier::external_body]
fn home_dir() -> (r: Option<String>) {
    match dirs::home_dir() {
        Option::Some(p) => Option::Some(p.to_string_lossy().into_owned()),
        Option::None => Option::None,
    }
}

/// Expands a leading tilde component of `path` against the given home
/// directory.
pub fn expand_tilde_with(path: &str, home: Option<&str>) -> (r: Option<String>)
    ensures
        opt_view(r) == tilde_expanded(
            path@,
            match home {
                Option::Some(h) => Option::Some(h@),
                Option::None => Option::None,
            },
        ),
{
    let plen = path.unicode_len();
    let is_tilde = plen >= 1 && path.get_char(0) == '~' && (plen == 1 || path.get_char(1) == '/');
    if !is_tilde {
        Some(String::from_str(path))
    } else {
        match home {
            Option::None => None,
            Option::Some(h) => {
                if plen == 1 {
                    Some(String::from_str(h))
                } else {
                    let rest = path.substring_char(2, plen);
                    proof {
                        assert(rest@ =~= path@.skip(2));
                    }
                    let hlen = h.unicode_len();
                    if hlen == 0 {
                        Some(String::from_str(rest))
                    } else if h.get_char(hlen - 1) == '/' {
                        Some(String::from_str(h).concat(rest))
                    } else {
                        Some(String::from_str(h).concat("/").concat(rest))
                    }
                }
            },
        }
    }
}

/// Expands a leading tilde component of `path` against the platform's
/// home directory. The home directory comes from the environment, so all
/// that is promised is that the result is the expansion against some home
/// value; in particular a path without a tilde component passes through
/// unchanged, whatever the environment holds.
pub fn expand_tilde(path: &str) -> (r: Option<String>)
    ensures
        exists|h: Option<Seq<char>>| opt_view(r) == #[trigger] tilde_expanded(path@, h),
        !tilde_path(path@) ==> (r matches Some(s) && s@ == path@),
{
    let home = home_dir();
    match &home {
        Option::Some(h) => expand_tilde_with(path, Some(h.as_str())),
        Option::None => expand_tilde_with(path, None),
    }
}

} // verus!
