//! Where files are kept. Paths are texts with `/` between their parts.
use crate::text::{
    begins_with, chars_of, is_blank, is_trimmed, nat_text, same_text, trim_text, u64_string,
};
use vstd::prelude::*;

verus! {

/// The places that the bot uses.
#[derive(Clone, Debug)]
pub struct ResolvedPaths {
    pub base_dir: String,
    pub state_path: String,
    pub data_dir: String,
    pub lock_path: String,
}

/// Whether a path starts at the root.
pub open spec fn is_absolute(p: Seq<char>) -> bool {
    p.len() > 0 && p[0] == '/'
}

/// Whether a path starts at the root.
pub fn path_is_absolute(p: &str) -> (r: bool)
    ensures
        r == is_absolute(p@),
{
    let v: Vec<char> = chars_of(p);
    v.len() > 0 && v[0] == '/'
}

/// A path below a directory. One that starts at the root stays as it is.
pub open spec fn joined(base: Seq<char>, p: Seq<char>) -> Seq<char> {
    if is_absolute(p) {
        p
    } else if base.len() == 0 || base.last() == '/' {
        base + p
    } else {
        base.push('/') + p
    }
}

/// A path below a directory. One that starts at the root stays as it is.
pub fn join_path(base: &str, p: &str) -> (s: String)
    ensures
        s@ == joined(base@, p@),
{
    if path_is_absolute(p) {
        return String::from_str(p);
    }
    let v: Vec<char> = chars_of(base);
    let mut s: String = String::from_str(base);
    if v.len() > 0 && v[v.len() - 1] != '/' {
        s.push('/');
    }
    s.append(p);
    s
}

/// A setting that is there and not blank, without the white space around it.
pub open spec fn is_setting(raw: Option<Seq<char>>, s: Option<Seq<char>>) -> bool {
    match raw {
        None => s is None,
        Some(r) => if is_blank(r) {
            s is None
        } else {
            s is Some && is_trimmed(r, s->0)
        },
    }
}

/// The text of an optional string.
pub open spec fn text_of(s: Option<&str>) -> Option<Seq<char>> {
    match s {
        Some(t) => Some(t@),
        None => None,
    }
}

/// The text of an optional string.
pub open spec fn string_text(s: Option<String>) -> Option<Seq<char>> {
    match s {
        Some(t) => Some(t@),
        None => None,
    }
}

/// A setting that is there and not blank, without the white space around it.
pub fn setting(raw: Option<&str>) -> (s: Option<String>)
    ensures
        is_setting(text_of(raw), string_text(s)),
{
    match raw {
        None => None,
        Some(r) => {
            let t: String = trim_text(r);
            if t.as_str().is_empty() {
                None
            } else {
                Some(t)
            }
        },
    }
}

/// Where the base directory comes from.
#[derive(Debug)]
pub enum BaseDir {
    /// The operator names it.
    Named(String),
    /// It is the directory of the program.
    OfProgram,
    /// The operator names one that does not start at the root.
    NotAbsolute(String),
}

/// Decides where the base directory comes from. One that the operator names has to
/// start at the root.
pub fn choose_base_dir(raw: Option<&str>) -> (b: BaseDir)
    ensures
        match b {
            BaseDir::Named(p) => is_setting(text_of(raw), Some(p@)) && is_absolute(p@),
            BaseDir::NotAbsolute(p) => is_setting(text_of(raw), Some(p@)) && !is_absolute(p@),
            BaseDir::OfProgram => is_setting(text_of(raw), None),
        },
{
    match setting(raw) {
        None => BaseDir::OfProgram,
        Some(p) => {
            if path_is_absolute(p.as_str()) {
                BaseDir::Named(p)
            } else {
                BaseDir::NotAbsolute(p)
            }
        },
    }
}

/// A place below the base directory: the default, or what the operator names.
pub open spec fn is_placed(base: Seq<char>, raw: Option<Seq<char>>, default_rel: Seq<char>, p: Seq<char>) -> bool {
    exists|s: Option<Seq<char>>| #[trigger]
        is_setting(raw, s) && p == joined(
            base,
            match s {
                Some(t) => t,
                None => default_rel,
            },
        )
}

fn resolve_under_base(base: &str, raw: Option<&str>, default_rel: &str) -> (p: String)
    ensures
        is_placed(base@, text_of(raw), default_rel@, p@),
{
    let s: Option<String> = setting(raw);
    assert(is_setting(text_of(raw), string_text(s)));
    match s {
        Some(t) => join_path(base, t.as_str()),
        None => join_path(base, default_rel),
    }
}

/// Places the bot's files: each one is below the base directory unless the operator
/// names another place.
pub fn resolve_paths(base_dir: &str, state: Option<&str>, data: Option<&str>, lock: Option<&str>) -> (r:
    ResolvedPaths)
    ensures
        r.base_dir@ == base_dir@,
        is_placed(base_dir@, text_of(state), "bot_state.json"@, r.state_path@),
        is_placed(base_dir@, text_of(data), "data"@, r.data_dir@),
        is_placed(base_dir@, text_of(lock), "bot.lock"@, r.lock_path@),
{
    ResolvedPaths {
        base_dir: String::from_str(base_dir),
        state_path: resolve_under_base(base_dir, state, "bot_state.json"),
        data_dir: resolve_under_base(base_dir, data, "data"),
        lock_path: resolve_under_base(base_dir, lock, "bot.lock"),
    }
}

/// The part of a path behind its last slash.
pub open spec fn last_part(path: Seq<char>) -> Seq<char>
    decreases path.len(),
{
    if path.len() == 0 || path.last() == '/' {
        Seq::empty()
    } else {
        last_part(path.drop_last()).push(path.last())
    }
}

/// Whether a path ends in the name of a file.
pub open spec fn names_file(path: Seq<char>) -> bool {
    last_part(path).len() > 0 && last_part(path) != "."@ && last_part(path) != ".."@
}

fn last_part_of(v: &Vec<char>, to: usize) -> (s: String)
    requires
        to <= v@.len(),
    ensures
        s@ == last_part(v@.take(to as int)),
    decreases to,
{
    let ghost path = v@.take(to as int);
    if to == 0 || v[to - 1] == '/' {
        let s: String = String::new();
        assert(s@ =~= last_part(path));
        s
    } else {
        assert(path.drop_last() =~= v@.take(to - 1));
        assert(path.last() == v@[to - 1]);
        let mut s: String = last_part_of(v, to - 1);
        s.push(v[to - 1]);
        s
    }
}

/// Whether a path ends in the name of a file.
pub fn path_names_file(path: &str) -> (r: bool)
    ensures
        r == names_file(path@),
{
    let v: Vec<char> = chars_of(path);
    assert(v@.take(v@.len() as int) =~= path@);
    let name: String = last_part_of(&v, v.len());
    !name.as_str().is_empty() && !same_text(name.as_str(), ".") && !same_text(name.as_str(), "..")
}

/// The path of a file with a suffix on its name.
pub open spec fn suffixed(path: Seq<char>, suffix: Seq<char>) -> Seq<char> {
    path + suffix
}

/// The path of a file with a suffix on its name.
pub fn path_with_suffix(path: &str, suffix: &str) -> (s: String)
    requires
        names_file(path@),
    ensures
        s@ == suffixed(path@, suffix@),
{
    let mut s: String = String::from_str(path);
    s.append(suffix);
    s
}

/// Where the previous snapshot of a file is kept.
pub fn prev_path_for(path: &str) -> (s: String)
    requires
        names_file(path@),
    ensures
        s@ == suffixed(path@, ".prev"@),
{
    path_with_suffix(path, ".prev")
}

/// The name of a temporary file: it holds the time and the process.
pub open spec fn temporary_suffix(now_ms: u64, pid: u32) -> Seq<char> {
    ".tmp."@ + nat_text(now_ms as nat) + "."@ + nat_text(pid as nat)
}

/// Where a file is written before it takes its place.
pub fn temporary_path_for(path: &str, now_ms: u64, pid: u32) -> (s: String)
    requires
        names_file(path@),
    ensures
        s@ == suffixed(path@, temporary_suffix(now_ms, pid)),
{
    let mut suffix: String = String::from_str(".tmp.");
    suffix.append(u64_string(now_ms).as_str());
    suffix.append(".");
    suffix.append(u64_string(pid as u64).as_str());
    path_with_suffix(path, suffix.as_str())
}

/// The name that a damaged file gets.
pub open spec fn quarantine_text(name: Seq<char>, reason: Seq<char>, now_ms: u64, pid: u32) -> Seq<char> {
    name + ".corrupt."@ + reason + "."@ + nat_text(now_ms as nat) + "."@ + nat_text(pid as nat)
}

/// The name that a damaged file gets: why it was put aside, when, and by which
/// process.
pub fn quarantine_name(file_name: &str, reason: &str, now_ms: u64, pid: u32) -> (s: String)
    ensures
        s@ == quarantine_text(file_name@, reason@, now_ms, pid),
{
    let mut s: String = String::from_str(file_name);
    s.append(".corrupt.");
    s.append(reason);
    s.append(".");
    s.append(u64_string(now_ms).as_str());
    s.append(".");
    s.append(u64_string(pid as u64).as_str());
    s
}

/// What to do after a file was to take its place.
#[derive(Clone, Copy, Debug, PartialEq, Eq, Structural)]
pub enum Commit {
    Done,
    /// It failed, and nothing has to be put back.
    Failed,
    /// It failed, and the previous snapshot has to be put back.
    RollBack,
}

/// What to do after a file was to take its place: where that failed and the file is
/// gone, the previous snapshot is put back.
pub fn after_commit(committed: bool, file_exists: bool, previous_exists: bool) -> (c: Commit)
    ensures
        c == (if committed {
            Commit::Done
        } else if !file_exists && previous_exists {
            Commit::RollBack
        } else {
            Commit::Failed
        }),
{
    if committed {
        Commit::Done
    } else if !file_exists && previous_exists {
        Commit::RollBack
    } else {
        Commit::Failed
    }
}

/// A place that does not start at the root is below the base directory.
pub proof fn law_relative_places_are_below_the_base(base: Seq<char>, p: Seq<char>)
    requires
        !is_absolute(p),
    ensures
        begins_with(joined(base, p), base),
{
    let j = joined(base, p);
    assert(j.subrange(0, base.len() as int) =~= base);
}

/// The snapshot, the temporary file and the file itself have different names.
pub proof fn law_file_names_differ(path: Seq<char>, now_ms: u64, pid: u32)
    ensures
        suffixed(path, ".prev"@) != path,
        suffixed(path, temporary_suffix(now_ms, pid)) != path,
        suffixed(path, ".prev"@) != suffixed(path, temporary_suffix(now_ms, pid)),
{
    reveal_strlit(".prev");
    reveal_strlit(".tmp.");
    let a = suffixed(path, ".prev"@);
    let b = suffixed(path, temporary_suffix(now_ms, pid));
    assert(a.len() == path.len() + 5);
    assert(temporary_suffix(now_ms, pid).len() >= 5);
    assert(a[path.len() as int + 1] == 'p');
    assert(b[path.len() as int + 1] == 't');
}

/// A place below a base is the base, one slash and the place; an absolute place is its own.
pub proof fn law_places_are_joined_by_one_slash(base: Seq<char>, p: Seq<char>)
    ensures
        p.len() > 0 && p[0] == '/' ==> joined(base, p) == p,
        !(p.len() > 0 && p[0] == '/') ==> joined(base, p).skip(joined(base, p).len() - p.len())
            =~= p,
        !(p.len() > 0 && p[0] == '/') && base.len() > 0 && base.last() != '/' ==> joined(base, p)
            =~= base + seq!['/'] + p,
        !(p.len() > 0 && p[0] == '/') && base.len() > 0 && base.last() == '/' ==> joined(base, p)
            =~= base + p,
{
}

/// The last part of a path is its end without a slash, from its beginning or from the last
/// slash on.
pub proof fn law_last_part_has_no_slash(path: Seq<char>)
    ensures
        ({
            let l = last_part(path);
            &&& l.len() <= path.len()
            &&& path.skip(path.len() - l.len()) =~= l
            &&& forall|i: int| 0 <= i < l.len() ==> #[trigger] l[i] != '/'
            &&& l.len() < path.len() ==> path[path.len() - l.len() - 1] == '/'
        }),
    decreases path.len(),
{
    if path.len() > 0 && path.last() != '/' {
        law_last_part_has_no_slash(path.drop_last());
        let l = last_part(path);
        let k = last_part(path.drop_last());
        assert forall|i: int| 0 <= i < l.len() implies #[trigger] l[i] != '/' by {
            if i < k.len() {
                assert(k[i] != '/');
            }
        }
        assert forall|i: int| 0 <= i < l.len() implies path.skip(path.len() - l.len())[i] == l[
            i
        ] by {
            if i < k.len() {
                assert(path.drop_last().skip(path.drop_last().len() - k.len())[i] == k[i]);
            }
        }
    }
}

} // verus!
