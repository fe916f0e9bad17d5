//! Output naming and paths: derives the base name of the generated file
//! pair and the two paths it is written under, and states the overwrite
//! policy of the writes themselves.  The file system calls stay with the
//! caller; everything here is a pure function of its arguments.

use vstd::prelude::*;
use vstd::string::{StrSliceExecFns, StringExecFns};
use crate::params::ParamSet;

verus! {

/// The text after the last `/` of a path (the whole path if it has no
/// `/`, empty if it ends in one).
pub open spec fn last_segment(p: Seq<char>) -> Seq<char>
    decreases p.len(),
{
    if p.len() == 0 {
        Seq::empty()
    } else if p.last() == '/' {
        Seq::empty()
    } else {
        last_segment(p.drop_last()).push(p.last())
    }
}

proof fn lemma_last_segment_suffix(p: Seq<char>, cut: int)
    requires
        0 <= cut <= p.len(),
        forall|j: int| cut <= j < p.len() ==> p[j] != '/',
        cut == 0 || p[cut - 1] == '/',
    ensures
        last_segment(p) == p.skip(cut),
    decreases p.len(),
{
    if p.len() == 0 {
        assert(p.skip(cut) =~= p);
    } else if cut == p.len() {
        assert(p.skip(cut) =~= Seq::<char>::empty());
    } else {
        assert(p.last() != '/');
        lemma_last_segment_suffix(p.drop_last(), cut);
        assert(p.drop_last().skip(cut).push(p.last()) =~= p.skip(cut));
    }
}

/// The path's last segment, as the writer uses it for the naming
/// fallback.
pub fn path_last_segment(p: &str) -> (r: String)
    ensures
        r@ == last_segment(p@),
{
    let n = p.unicode_len();
    let mut cut: usize = 0;
    let mut i: usize = 0;
    while i < n
        invariant
            n == p@.len(),
            0 <= cut <= i <= n,
            cut == 0 || p@[cut - 1] == '/',
            forall|j: int| cut <= j < i ==> p@[j] != '/',
        decreases n - i,
    {
        if p.get_char(i) == '/' {
            cut = i + 1;
        }
        i = i + 1;
    }
    let r = p.substring_char(cut, n).to_owned();
    proof {
        lemma_last_segment_suffix(p@, cut as int);
        assert(r@ =~= p@.skip(cut as int));
    }
    r
}

/// The conventional parameter name that overrides the output base name.
pub open spec fn module_name_key() -> Seq<char> {
    seq!['m', 'o', 'd', 'u', 'l', 'e', '_', 'n', 'a', 'm', 'e']
}

/// Derives the output base name: the value bound to `module_name` if the
/// parameter set holds that key, else the last segment of the module
/// type's base path.
pub fn derive_output_name(params: &ParamSet, template_path: &str) -> (r: String)
    ensures
        params@.contains_key(module_name_key()) ==> r@ == params@[module_name_key()],
        !params@.contains_key(module_name_key()) ==> r@ == last_segment(template_path@),
{
    proof {
        reveal_strlit("module_name");
        assert("module_name"@ =~= module_name_key());
    }
    match params.get("module_name") {
        Some(v) => v.clone(),
        None => path_last_segment(template_path),
    }
}

/// `dir`, a `/`, then `name`.
pub open spec fn joined_path(dir: Seq<char>, name: Seq<char>) -> Seq<char> {
    dir + seq!['/'] + name
}

/// Joins a directory path and an entry name with a `/`.
pub fn join_path(dir: &str, name: &str) -> (r: String)
    ensures
        r@ == joined_path(dir@, name@),
{
    proof {
        reveal_strlit("/");
    }
    let mut r = String::new();
    r.append(dir);
    r.append("/");
    r.append(name);
    proof {
        assert("/"@ =~= seq!['/']);
        assert(r@ =~= joined_path(dir@, name@));
    }
    r
}

/// The header-extension output path for a base name.
pub open spec fn header_path_of(dir: Seq<char>, name: Seq<char>) -> Seq<char> {
    joined_path(dir, name) + seq!['.', 'h']
}

/// The source-extension output path for a base name.
pub open spec fn source_path_of(dir: Seq<char>, name: Seq<char>) -> Seq<char> {
    joined_path(dir, name) + seq!['.', 'c', 'p', 'p']
}

/// The two paths the generated pair is written under:
/// `<dir>/<name>.h` and `<dir>/<name>.cpp`.  They differ in their
/// extension, so one generation run never writes one path twice.
pub fn output_paths(output_dir: &str, name: &str) -> (r: (String, String))
    ensures
        r.0@ == header_path_of(output_dir@, name@),
        r.1@ == source_path_of(output_dir@, name@),
        r.0@ != r.1@,
{
    proof {
        reveal_strlit(".h");
        reveal_strlit(".cpp");
    }
    let base = join_path(output_dir, name);
    let mut h = base.clone();
    h.append(".h");
    let mut c = base;
    c.append(".cpp");
    proof {
        assert(".h"@ =~= seq!['.', 'h']);
        assert(".cpp"@ =~= seq!['.', 'c', 'p', 'p']);
        assert(h@ =~= header_path_of(output_dir@, name@));
        assert(c@ =~= source_path_of(output_dir@, name@));
        if h@ == c@ {
            assert(h@.len() == c@.len());
            assert(false);
        }
    }
    (h, c)
}

/// A model of one generation run's effect on the output directory: each
/// write creates or truncates its file, so the written body replaces
/// whatever the path held.
pub open spec fn apply_generation(
    dir: Map<Seq<char>, Seq<char>>,
    header_path: Seq<char>,
    header_body: Seq<char>,
    source_path: Seq<char>,
    source_body: Seq<char>,
) -> Map<Seq<char>, Seq<char>> {
    dir.insert(header_path, header_body).insert(source_path, source_body)
}

/// Last generation wins: after two runs that write the same two paths,
/// each path holds exactly the second run's body — no merge, no append —
/// and no other path was touched.
pub proof fn lemma_last_generation_wins(
    dir: Map<Seq<char>, Seq<char>>,
    header_path: Seq<char>,
    source_path: Seq<char>,
    hb1: Seq<char>,
    sb1: Seq<char>,
    hb2: Seq<char>,
    sb2: Seq<char>,
)
    requires
        header_path != source_path,
    ensures
        ({
            let after = apply_generation(
                apply_generation(dir, header_path, hb1, source_path, sb1),
                header_path,
                hb2,
                source_path,
                sb2,
            );
            &&& after.contains_key(header_path) && after[header_path] == hb2
            &&& after.contains_key(source_path) && after[source_path] == sb2
            &&& forall|p: Seq<char>|
                p != header_path && p != source_path ==> (#[trigger] after.contains_key(p)
                    <==> dir.contains_key(p)) && (dir.contains_key(p) ==> after[p] == dir[p])
        }),
{
}

} // verus!
