//! Where the bundled executables, the logs and the written configuration
//! files live. Paths are handled as text; joining two of them is left to
//! std's `Path::join`.

use vstd::prelude::*;
use crate::engine::{stem_of, Engine};

verus! {

broadcast use vstd::string::group_string_axioms;

/// The path that `std::path::Path::join` makes of a base path and a name, as
/// text. It joins with the platform's separator, so it is fixed for a given
/// build target.
pub uninterp spec fn joined_path(base: Seq<char>, name: Seq<char>) -> Seq<char>;

/// Whether `s` ends with `tail`.
pub open spec fn ends_with(s: Seq<char>, tail: Seq<char>) -> bool {
    tail.len() <= s.len() && s.subrange(s.len() - tail.len(), s.len() as int) == tail
}

/// A character that may start a plain file name: an ASCII letter or digit.
pub open spec fn is_name_start(c: char) -> bool {
    ('a' <= c && c <= 'z') || ('A' <= c && c <= 'Z') || ('0' <= c && c <= '9')
}

/// A character of a plain file name: an ASCII letter or digit, `.`, `-` or `_`.
pub open spec fn is_name_char(c: char) -> bool {
    is_name_start(c) || c == '.' || c == '-' || c == '_'
}

/// A plain relative file name: not empty, not `.` or `..`, and with no
/// separator, root or drive prefix in it on any platform.
pub open spec fn is_plain_name(n: Seq<char>) -> bool {
    &&& n.len() > 0
    &&& is_name_start(n[0])
    &&& forall|i: int| 0 <= i < n.len() ==> is_name_char(#[trigger] n[i])
}

/// `std::path::Path::new(base).join(name)`, read back as text. Both inputs
/// are UTF-8, so the text conversion loses nothing. The result is named;
/// what is claimed of it is what `PathBuf::push` documents for a relative
/// name: it is adjoined to the base, so the result ends with it.
#[verifier::external_body]
pub(crate) fn join_path(base: &str, name: &str) -> (r: String)
    ensures
        r@ == joined_path(base@, name@),
        is_plain_name(name@) ==> ends_with(r@, name@),
{
    std::path::Path::new(base).join(name).to_string_lossy().into_owned()
}

/// Whether a character separates path components on the platform the
/// library was built for (`std::path::is_separator`): `/` and `\` on
/// Windows, `/` alone on Unix. Fixed for a given build target.
pub uninterp spec fn is_path_separator(c: char) -> bool;

/// `std::path::is_separator`. Its result is named; `/` is a separator on
/// every platform, as std documents.
#[verifier::external_body]
fn path_separator(c: char) -> (r: bool)
    ensures
        r == is_path_separator(c),
        c == '/' ==> r,
{
    std::path::is_separator(c)
}

/// Whether the library runs on Windows, which is the platform on which a
/// backslash separates path components.
pub(crate) fn host_is_windows() -> (r: bool)
    ensures
        r == is_path_separator('\\'),
{
    path_separator('\\')
}

/// An executable's file name: the stem, with ".exe" on Windows.
pub open spec fn exe_name(stem: Seq<char>, windows: bool) -> Seq<char> {
    if windows {
        stem + ".exe"@
    } else {
        stem
    }
}

pub(crate) fn exe_file(stem: &str, windows: bool) -> (r: String)
    ensures
        r@ == exe_name(stem@, windows),
{
    let mut name = stem.to_string();
    if windows {
        name.append(".exe");
    }
    name
}

/// The file name of an engine's bundled executable on the given platform.
pub fn binary_file_name(engine: Engine, windows: bool) -> (r: String)
    ensures
        r@ == exe_name(stem_of(engine), windows),
{
    exe_file(engine.binary_stem(), windows)
}

/// Where an engine's executable is bundled: its file name for the platform
/// the library was built for, under the resources directory.
pub open spec fn bundled_binary(resources: Seq<char>, engine: Engine) -> Seq<char> {
    joined_path(resources, exe_name(stem_of(engine), is_path_separator('\\')))
}

/// Where an engine's executable is bundled: its file name for this
/// platform, under the resources directory.
pub fn binary_path(resources: &str, engine: Engine) -> (r: String)
    ensures
        r@ == bundled_binary(resources@, engine),
{
    join_path(resources, binary_file_name(engine, host_is_windows()).as_str())
}

/// The name of the file an engine's output goes to.
pub open spec fn log_name(engine: Engine) -> Seq<char> {
    stem_of(engine) + ".log"@
}

/// The file an engine's output goes to.
pub open spec fn log_file(data: Seq<char>, engine: Engine) -> Seq<char> {
    joined_path(joined_path(data, "logs"@), log_name(engine))
}

/// Where a core's output goes: its own file, named after the engine, under
/// the logs directory. Rewritten on every start, so it always holds the
/// attempt that just happened.
pub fn log_path(data: &str, engine: Engine) -> (r: String)
    ensures
        r@ == log_file(data@, engine),
        ends_with(r@, log_name(engine)),
{
    let mut name = engine.binary_stem().to_string();
    name.append(".log");
    proof {
        reveal_strlit(".log");
        assert(name@ == log_name(engine));
        assert(is_plain_name(name@));
    }
    join_path(join_path(data, "logs").as_str(), name.as_str())
}

/// Paths that end in the log file names of two different engines differ,
/// so no two engines write to the same log.
pub proof fn lemma_log_names_tell_engines_apart(p: Seq<char>, q: Seq<char>, e1: Engine, e2: Engine)
    requires
        ends_with(p, log_name(e1)),
        ends_with(q, log_name(e2)),
        e1 != e2,
    ensures
        p != q,
{
    reveal_strlit(".log");
    let a = log_name(e1);
    let b = log_name(e2);
    // The ninth character from the end tells the engines apart:
    // `e` in "ether.log", `l` in "lobal.log", `p` in "prowl.log".
    assert(p.subrange(p.len() - a.len(), p.len() as int)[a.len() - 9] == a[a.len() - 9]);
    assert(q.subrange(q.len() - b.len(), q.len() as int)[b.len() - 9] == b[b.len() - 9]);
    assert(p[p.len() - 9] == a[a.len() - 9]);
    assert(q[q.len() - 9] == b[b.len() - 9]);
    assert(a[a.len() - 9] != b[b.len() - 9]);
}

/// Where the tunnel's executable is bundled, for the platform the library
/// was built for.
pub open spec fn bundled_tunnel(resources: Seq<char>) -> Seq<char> {
    joined_path(resources, exe_name("sing-box"@, is_path_separator('\\')))
}

/// Where the tunnel's executable is bundled.
pub fn tun_binary(resources: &str) -> (r: String)
    ensures
        r@ == bundled_tunnel(resources@),
{
    join_path(resources, exe_file("sing-box", host_is_windows()).as_str())
}

/// The directory the Global engine keeps its state and its config in.
pub open spec fn global_store(data: Seq<char>) -> Seq<char> {
    joined_path(data, "global-core"@)
}

pub fn global_store_dir(data: &str) -> (r: String)
    ensures
        r@ == global_store(data@),
{
    join_path(data, "global-core")
}

/// The file a configuration is written to inside its directory.
pub open spec fn config_file(dir: Seq<char>) -> Seq<char> {
    joined_path(dir, "config.json"@)
}

pub fn config_file_in(dir: &str) -> (r: String)
    ensures
        r@ == config_file(dir@),
{
    join_path(dir, "config.json")
}

/// The directory the tunnel's config and state live in.
pub open spec fn tunnel_dir(data: Seq<char>) -> Seq<char> {
    joined_path(data, "tunnel"@)
}

pub fn tunnel_dir_in(data: &str) -> (r: String)
    ensures
        r@ == tunnel_dir(data@),
{
    join_path(data, "tunnel")
}

/// The file the tunnel's output goes to.
pub open spec fn tunnel_log(data: Seq<char>) -> Seq<char> {
    joined_path(joined_path(data, "logs"@), "tunnel.log"@)
}

pub fn tunnel_log_path(data: &str) -> (r: String)
    ensures
        r@ == tunnel_log(data@),
{
    join_path(join_path(data, "logs").as_str(), "tunnel.log")
}

/// The file Aether keeps its identity in. Left alone it lands in the
/// working directory.
pub open spec fn aether_identity(data: Seq<char>) -> Seq<char> {
    joined_path(data, "aether.toml"@)
}

pub fn aether_identity_path(data: &str) -> (r: String)
    ensures
        r@ == aether_identity(data@),
{
    join_path(data, "aether.toml")
}

} // verus!
