//! Paths as strings: joining, `~` expansion and component-wise prefixes,
//! following `std::path` on Unix. Only `'/'` separates components here; on
//! Windows, `std::path` also splits on `'\\'` and reads drive and UNC
//! prefixes, which these functions do not, so there their results can differ
//! from `std::path`'s.
use vstd::prelude::*;
use crate::text::{char_count, chars_of, owned, split, split_char, str_eq, string_of_range, trim, trimmed, views};

verus! {

/// The current user's home directory, as `directories::BaseDirs` reports it.
///
/// Calls `directories::BaseDirs::new()` and, when it succeeds, converts
/// `home_dir()` to a string (lossily, as `Path::to_string_lossy` does: a
/// home directory that is not valid UTF-8 comes back with replacement
/// characters, so paths built on it name another file). The answer comes
/// from the environment and the operating system, so nothing is stated about
/// it.
#[verifier::external_body]
pub(crate) fn home_dir() -> (r: Option<String>) {
    match directories::BaseDirs::new() {
        Some(dirs) => Some(dirs.home_dir().to_string_lossy().into_owned()),
        None => None,
    }
}

/// `base` joined with `comp` as `PathBuf::push` does on Unix: an absolute
/// `comp` replaces `base`; otherwise a `'/'` goes between them unless `base`
/// is empty or already ends in one.
pub open spec fn join_path(base: Seq<char>, comp: Seq<char>) -> Seq<char> {
    if comp.len() > 0 && comp[0] == '/' {
        comp
    } else if base.len() == 0 || base.last() == '/' {
        base + comp
    } else {
        base + seq!['/'] + comp
    }
}

/// `Path::new(base).join(comp)` as it is on Unix, as a string (on Windows,
/// `std::path` also treats `'\\'` and drive prefixes specially; this does not).
pub fn join(base: &str, comp: &str) -> (r: String)
    ensures
        r@ == join_path(base@, comp@),
{
    let b = chars_of(base);
    let c = chars_of(comp);
    if c.len() > 0 && c[0] == '/' {
        return owned(comp);
    }
    let mut out = owned(base);
    if !(b.len() == 0 || b[b.len() - 1] == '/') {
        out.append("/");
        proof {
            reveal_strlit("/");
        }
        assert(out@ =~= base@ + seq!['/']);
    }
    out.append(comp);
    out
}

/// Error of looking up a configuration file.
#[derive(Debug, Clone, Copy, PartialEq, Eq, Structural)]
pub enum ConfigError {
    /// The operating system reports no home directory.
    NoHomeDirectory,
}

impl ConfigError {
    pub open spec fn spec_message(self) -> Seq<char> {
        "could not determine home directory"@
    }

    /// The error's description.
    pub fn message(&self) -> (r: String)
        ensures
            r@ == self.spec_message(),
    {
        owned("could not determine home directory")
    }
}

/// `<home>/.harness/<file>`.
pub open spec fn config_file_in(home: Seq<char>, file: Seq<char>) -> Seq<char> {
    join_path(join_path(home, ".harness"@), file)
}

/// The path of configuration file `file` under `home`.
pub fn config_file_under(home: &str, file: &str) -> (r: String)
    ensures
        r@ == config_file_in(home@, file@),
{
    let dir = join(home, ".harness");
    join(dir.as_str(), file)
}

/// The path of configuration file `file` for home directory `home`: under
/// `home/.harness`, or an error when there is no home directory.
pub fn config_file_for(home: Option<&str>, file: &str) -> (r: Result<String, ConfigError>)
    ensures
        match home {
            Some(h) => r matches Ok(p) && p@ == config_file_in(h@, file@),
            None => r matches Err(ConfigError::NoHomeDirectory),
        },
{
    match home {
        Some(h) => Ok(config_file_under(h, file)),
        None => Err(ConfigError::NoHomeDirectory),
    }
}

/// The path of configuration file `file` in the user's `~/.harness`
/// directory; an error when there is no home directory. Whether there is one
/// comes from the environment; `config_file_for` says what is returned for
/// each answer.
pub fn config_file(file: &str) -> (r: Result<String, ConfigError>)
    ensures
        r matches Ok(p) ==> exists|home: Seq<char>| p@ == config_file_in(home, file@),
        r matches Err(e) ==> e == ConfigError::NoHomeDirectory,
{
    let home = home_dir();
    match &home {
        Some(h) => config_file_for(Some(h.as_str()), file),
        None => config_file_for(None, file),
    }
}

/// `<home>/.secrets/linear-key`, where the Linear API key is kept.
pub open spec fn key_file_in(home: Seq<char>) -> Seq<char> {
    join_path(join_path(home, ".secrets"@), "linear-key"@)
}

/// Where the Linear API key is to be taken from.
#[derive(Debug, Clone, PartialEq, Eq)]
pub enum KeySource {
    /// The key itself, given by the environment variable.
    Env(String),
    /// The file that holds the key.
    File(String),
}

/// Where the Linear API key comes from, given the value of `LINEAR_API_KEY`
/// (if set) and the home directory (if known): the variable's value, trimmed,
/// comes first; otherwise the key file under the home directory; with
/// neither, an error.
pub fn api_key_source_for(env_value: Option<&str>, home: Option<&str>) -> (r: Result<KeySource, ConfigError>)
    ensures
        match env_value {
            Some(v) => r matches Ok(KeySource::Env(k)) && k@ == trim(v@),
            None => match home {
                Some(h) => r matches Ok(KeySource::File(p)) && p@ == key_file_in(h@),
                None => r matches Err(ConfigError::NoHomeDirectory),
            },
        },
{
    match env_value {
        Some(v) => Ok(KeySource::Env(trimmed(v))),
        None => match home {
            Some(h) => {
                let dir = join(h, ".secrets");
                Ok(KeySource::File(join(dir.as_str(), "linear-key")))
            },
            None => Err(ConfigError::NoHomeDirectory),
        },
    }
}

/// Where the Linear API key comes from, given the value of `LINEAR_API_KEY`
/// (if set): that value, trimmed; else the key file under the home directory,
/// which is looked up only then. Whether there is a home directory comes from
/// the environment; `api_key_source_for` says what is returned for each
/// answer.
pub fn api_key_source(env_value: Option<&str>) -> (r: Result<KeySource, ConfigError>)
    ensures
        env_value matches Some(v) ==> r matches Ok(KeySource::Env(k)) && k@ == trim(v@),
        env_value is None ==> (r matches Ok(KeySource::File(p)) ==> exists|home: Seq<char>|
            p@ == key_file_in(home)),
        env_value is None ==> (r matches Ok(k) ==> k is File),
        r matches Err(e) ==> env_value is None && e == ConfigError::NoHomeDirectory,
{
    match env_value {
        Some(v) => api_key_source_for(Some(v), None),
        None => {
            let home = home_dir();
            match &home {
                Some(h) => api_key_source_for(None, Some(h.as_str())),
                None => api_key_source_for(None, None),
            }
        },
    }
}

/// `path` with a leading `~/` (or `~\`) replaced by the home directory when
/// one is known.
pub open spec fn expand_home(path: Seq<char>, home: Option<Seq<char>>) -> Seq<char> {
    if path.len() >= 2 && path[0] == '~' && (path[1] == '/' || path[1] == '\\') {
        match home {
            Some(h) => join_path(h, path.skip(2)),
            None => path,
        }
    } else {
        path
    }
}

/// The view of an optional string slice.
pub open spec fn opt_view(s: Option<&str>) -> Option<Seq<char>> {
    match s {
        Some(x) => Some(x@),
        None => None,
    }
}

/// `path` with a leading `~/` expanded against `home`.
pub fn expand_home_with(path: &str, home: Option<&str>) -> (r: String)
    ensures
        r@ == expand_home(path@, opt_view(home)),
{
    let v = chars_of(path);
    if v.len() >= 2 && v[0] == '~' && (v[1] == '/' || v[1] == '\\') {
        match home {
            Some(h) => {
                let rest = string_of_range(&v, 2, v.len());
                assert(rest@ =~= path@.skip(2));
                join(h, rest.as_str())
            },
            None => owned(path),
        }
    } else {
        owned(path)
    }
}

// ---------------------------------------------------------------------------
// Components
// ---------------------------------------------------------------------------

/// A piece between separators that stands as a component: not empty, not ".".
pub open spec fn is_component(seg: Seq<char>) -> bool {
    seg.len() > 0 && seg != "."@
}

/// The pieces of `segs` that stand as components, in order.
pub open spec fn kept(segs: Seq<Seq<char>>) -> Seq<Seq<char>>
    decreases segs.len(),
{
    if segs.len() == 0 {
        Seq::empty()
    } else if is_component(segs.last()) {
        kept(segs.drop_last()).push(segs.last())
    } else {
        kept(segs.drop_last())
    }
}

/// The components of a Unix path as `Path::components` yields them: `"/"`
/// for the root, `"."` for a leading current-directory component of a
/// relative path, then every other non-empty piece except ".".
pub open spec fn components(p: Seq<char>) -> Seq<Seq<char>> {
    let segs = split_char(p, '/');
    if p.len() > 0 && p[0] == '/' {
        seq!["/"@] + kept(segs)
    } else if segs.len() > 0 && segs[0] == "."@ {
        seq!["."@] + kept(segs.drop_first())
    } else {
        kept(segs)
    }
}

/// Whether `a` is a prefix of `b`.
pub open spec fn is_prefix(a: Seq<Seq<char>>, b: Seq<Seq<char>>) -> bool {
    a.len() <= b.len() && b.take(a.len() as int) == a
}

/// Whether path `p` starts with path `base` (`Path::starts_with` on Unix):
/// the components of `base` are a prefix of those of `p`.
pub open spec fn path_starts_with(p: Seq<char>, base: Seq<char>) -> bool {
    is_prefix(components(base), components(p))
}

/// The components of `segs[from..]` that stand as components, appended to `out`.
fn keep_components(segs: &Vec<String>, from: usize, out: &mut Vec<String>)
    requires
        from <= segs.len(),
    ensures
        views(final(out)@) == views(old(out)@) + kept(views(segs@).skip(from as int)),
{
    let ghost all = views(segs@).skip(from as int);
    let ghost start = views(out@);
    let mut i = from;
    while i < segs.len()
        invariant
            from <= i <= segs.len(),
            all == views(segs@).skip(from as int),
            views(out@) == start + kept(all.take(i - from)),
        decreases segs.len() - i,
    {
        let seg = &segs[i];
        assert(all.take(i + 1 - from).drop_last() =~= all.take(i - from));
        assert(all.take(i + 1 - from).last() == seg@);
        if char_count(seg.as_str()) > 0 && !str_eq(seg.as_str(), ".") {
            let ghost prev = out@;
            out.push(seg.clone());
            assert(views(out@) =~= views(prev).push(seg@));
        } else {
        }
        i = i + 1;
    }
    assert(all.take(segs.len() - from) =~= all);
}

/// The components of `p`, as `Path::new(p).components()` yields them on Unix
/// (only `'/'` separates; no Windows prefixes).
pub fn path_components(p: &str) -> (r: Vec<String>)
    ensures
        views(r@) == components(p@),
{
    let segs = split(p, '/');
    let v = chars_of(p);
    let mut out: Vec<String> = Vec::new();
    proof {
        crate::text::lemma_split_char_nonempty(p@, '/');
    }
    if v.len() > 0 && v[0] == '/' {
        out.push(owned("/"));
        assert(views(segs@).skip(0) =~= views(segs@));
        keep_components(&segs, 0, &mut out);
    } else if segs.len() > 0 && str_eq(segs[0].as_str(), ".") {
        out.push(owned("."));
        assert(views(segs@).skip(1) =~= views(segs@).drop_first());
        keep_components(&segs, 1, &mut out);
    } else {
        assert(views(segs@).skip(0) =~= views(segs@));
        keep_components(&segs, 0, &mut out);
    }
    out
}

/// Whether `a` is a prefix of `b`, element by element.
pub fn strings_prefix(a: &Vec<String>, b: &Vec<String>) -> (r: bool)
    ensures
        r == is_prefix(views(a@), views(b@)),
{
    if a.len() > b.len() {
        return false;
    }
    let mut i: usize = 0;
    while i < a.len()
        invariant
            a.len() <= b.len(),
            i <= a.len(),
            forall|j: int| 0 <= j < i ==> a@[j]@ == b@[j]@,
        decreases a.len() - i,
    {
        if a[i] != b[i] {
            assert(views(b@).take(views(a@).len() as int)[i as int] != views(a@)[i as int]);
            return false;
        }
        i = i + 1;
    }
    assert(views(b@).take(views(a@).len() as int) =~= views(a@));
    true
}

} // verus!
