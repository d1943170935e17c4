//! Workspace path normalization and the fixed locations under the
//! application data root.
//!
//! Paths are modeled as their character sequences.  A path is absolute when
//! it begins with the root separator; joining a fragment onto a base
//! directory inserts a separator only where one is missing, keeps the base
//! unchanged for an empty fragment, and lets an absolute fragment replace the
//! base outright.

use vstd::prelude::*;

verus! {

/// Whether a path begins at the filesystem root.
pub open spec fn is_absolute(p: Seq<char>) -> bool {
    p.len() > 0 && p[0] == '/'
}

/// Joining a fragment onto a base directory.
pub open spec fn join_spec(base: Seq<char>, rel: Seq<char>) -> Seq<char> {
    if rel.len() == 0 {
        base
    } else if is_absolute(rel) {
        rel
    } else if base.len() == 0 {
        rel
    } else if base[base.len() - 1] == '/' {
        base + rel
    } else {
        base + seq!['/'] + rel
    }
}

/// The raw input with every leading `~/` removed, one after the other.
pub open spec fn tilde_stripped(p: Seq<char>) -> Seq<char>
    decreases p.len(),
{
    if p.len() >= 2 && p[0] == '~' && p[1] == '/' {
        tilde_stripped(p.skip(2))
    } else {
        p
    }
}

/// Whether the input is exactly the home reference `~`.
pub open spec fn is_tilde_only(p: Seq<char>) -> bool {
    p.len() == 1 && p[0] == '~'
}

/// Whether the input begins with the home reference `~/`.
pub open spec fn has_tilde_prefix(p: Seq<char>) -> bool {
    p.len() >= 2 && p[0] == '~' && p[1] == '/'
}

/// Normalization of a raw workspace path against the home directory and the
/// current working directory, either of which may be unavailable.  `~` and
/// `~/<rest>` expand to the home directory when one is known; any other
/// relative path resolves against the working directory when one is known;
/// an absolute path passes through unchanged.  A tilde form without a home
/// directory is kept literally and so resolves as a relative path.
pub open spec fn normalize_spec(
    raw: Seq<char>,
    home: Option<Seq<char>>,
    cwd: Option<Seq<char>>,
) -> Seq<char> {
    if is_tilde_only(raw) && home is Some {
        home->0
    } else if has_tilde_prefix(raw) && home is Some {
        join_spec(home->0, tilde_stripped(raw))
    } else if is_absolute(raw) {
        raw
    } else if cwd is Some {
        join_spec(cwd->0, raw)
    } else {
        raw
    }
}

/// The character sequence of an optional borrowed string.
pub open spec fn opt_view(s: Option<&str>) -> Option<Seq<char>> {
    match s {
        Some(v) => Some(v@),
        None => None,
    }
}

/// Joining a fragment onto a base directory.
pub fn join_path(base: &str, rel: &str) -> (r: String)
    ensures
        r@ == join_spec(base@, rel@),
{
    let rel_len = rel.unicode_len();
    if rel_len == 0 {
        return String::from_str(base);
    }
    if rel.get_char(0) == '/' {
        return String::from_str(rel);
    }
    let base_len = base.unicode_len();
    if base_len == 0 {
        return String::from_str(rel);
    }
    let mut r = String::from_str(base);
    if base.get_char(base_len - 1) != '/' {
        proof {
            reveal_strlit("/");
        }
        r.append("/");
        assert(r@ =~= base@ + seq!['/']);
    }
    r.append(rel);
    r
}

/// The raw input with every leading `~/` removed.
fn strip_tilde<'a>(raw: &'a str) -> (r: &'a str)
    ensures
        r@ == tilde_stripped(raw@),
{
    let len = raw.unicode_len();
    let mut i: usize = 0;
    proof {
        assert(raw@.skip(0) =~= raw@);
    }
    while i < len && i + 1 < len && raw.get_char(i) == '~' && raw.get_char(i + 1) == '/'
        invariant
            i <= len,
            len == raw@.len(),
            tilde_stripped(raw@) == tilde_stripped(raw@.skip(i as int)),
        decreases len - i,
    {
        proof {
            assert(raw@.skip(i as int)[0] == raw@[i as int]);
            assert(raw@.skip(i as int)[1] == raw@[i as int + 1]);
            assert(raw@.skip(i as int).skip(2) =~= raw@.skip(i as int + 2));
        }
        i = i + 2;
    }
    proof {
        let rest = raw@.skip(i as int);
        assert(!(rest.len() >= 2 && rest[0] == '~' && rest[1] == '/')) by {
            if rest.len() >= 2 {
                assert(rest[0] == raw@[i as int]);
                assert(rest[1] == raw@[i as int + 1]);
            }
        }
    }
    raw.substring_char(i, len)
}

/// Normalization of a raw workspace path; the home directory and working
/// directory are handed in by the caller, which alone can read the
/// environment.
pub fn normalize_path(raw: &str, home: Option<&str>, cwd: Option<&str>) -> (r: String)
    ensures
        r@ == normalize_spec(raw@, opt_view(home), opt_view(cwd)),
{
    let len = raw.unicode_len();
    if len == 1 && raw.get_char(0) == '~' {
        if let Some(h) = home {
            return String::from_str(h);
        }
    }
    if len >= 2 && raw.get_char(0) == '~' && raw.get_char(1) == '/' {
        if let Some(h) = home {
            let rest = strip_tilde(raw);
            return join_path(h, rest);
        }
    }
    if len > 0 && raw.get_char(0) == '/' {
        return String::from_str(raw);
    }
    if let Some(c) = cwd {
        return join_path(c, raw);
    }
    String::from_str(raw)
}

/// The application data root under the platform's data directory.
pub fn app_data_root_path(platform_data_dir: &str) -> (r: String)
    ensures
        r@ == join_spec(platform_data_dir@, "litefetch"@),
{
    join_path(platform_data_dir, "litefetch")
}

/// The default workspace directory under the application data root.
pub open spec fn default_workspace_spec(app_root: Seq<char>) -> Seq<char> {
    join_spec(app_root, "workspace"@)
}

/// The default workspace directory under the application data root.
pub fn default_workspace_path(app_root: &str) -> (r: String)
    ensures
        r@ == default_workspace_spec(app_root@),
{
    join_path(app_root, "workspace")
}

/// The fixed location of the persisted workspace configuration.
pub fn workspace_config_file(app_root: &str) -> (r: String)
    ensures
        r@ == join_spec(app_root@, "workspace_path.json"@),
{
    join_path(app_root, "workspace_path.json")
}

/// Both home references resolve to the home directory itself: `~` and `~/`
/// normalize to the same path, whatever the home directory is.
pub proof fn lemma_tilde_forms_agree(home: Seq<char>, cwd: Option<Seq<char>>)
    ensures
        normalize_spec(seq!['~'], Some(home), cwd) == home,
        normalize_spec(seq!['~', '/'], Some(home), cwd) == home,
{
    assert(seq!['~', '/'].skip(2) =~= Seq::<char>::empty());
    assert(tilde_stripped(Seq::<char>::empty()) == Seq::<char>::empty());
    assert(tilde_stripped(seq!['~', '/']) == Seq::<char>::empty());
}

/// An absolute path is left unchanged by normalization.
pub proof fn lemma_normalize_absolute_id(
    p: Seq<char>,
    home: Option<Seq<char>>,
    cwd: Option<Seq<char>>,
)
    requires
        is_absolute(p),
    ensures
        normalize_spec(p, home, cwd) == p,
{
}

/// Joining any fragment onto an absolute base yields an absolute path.
pub proof fn lemma_join_absolute(base: Seq<char>, rel: Seq<char>)
    requires
        is_absolute(base),
    ensures
        is_absolute(join_spec(base, rel)),
{
}

/// With an absolute working directory at hand, and a home directory that is
/// absolute whenever it is known, normalization always yields an absolute
/// path.
pub proof fn lemma_normalize_absolute(
    raw: Seq<char>,
    home: Option<Seq<char>>,
    cwd: Option<Seq<char>>,
)
    requires
        home is Some ==> is_absolute(home->0),
        cwd is Some,
        is_absolute(cwd->0),
    ensures
        is_absolute(normalize_spec(raw, home, cwd)),
{
    if is_tilde_only(raw) && home is Some {
    } else if has_tilde_prefix(raw) && home is Some {
        lemma_join_absolute(home->0, tilde_stripped(raw));
    } else if is_absolute(raw) {
    } else {
        lemma_join_absolute(cwd->0, raw);
    }
}

/// Normalization is idempotent whenever the environment pins the result to an
/// absolute path: normalizing an already-normalized path changes nothing,
/// even against a different home and working directory.
pub proof fn lemma_normalize_idempotent(
    raw: Seq<char>,
    home: Option<Seq<char>>,
    cwd: Option<Seq<char>>,
    home2: Option<Seq<char>>,
    cwd2: Option<Seq<char>>,
)
    requires
        home is Some ==> is_absolute(home->0),
        cwd is Some,
        is_absolute(cwd->0),
    ensures
        normalize_spec(normalize_spec(raw, home, cwd), home2, cwd2) == normalize_spec(
            raw,
            home,
            cwd,
        ),
{
    lemma_normalize_absolute(raw, home, cwd);
    lemma_normalize_absolute_id(normalize_spec(raw, home, cwd), home2, cwd2);
}

} // verus!
