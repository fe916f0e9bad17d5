//! Template catalog scanner: groups the files of a template directory
//! listing into named module-type candidates and keeps only the complete
//! ones (a schema file plus one body file of each of the two extension
//! classes).

use vstd::prelude::*;
use vstd::string::StrSliceExecFns;
use crate::strutil::{ends_with, is_suffix_of, str_eq};

verus! {

pub open spec fn ext_json() -> Seq<char> {
    seq!['.', 'j', 's', 'o', 'n']
}

pub open spec fn ext_cpp() -> Seq<char> {
    seq!['.', 'c', 'p', 'p']
}

pub open spec fn ext_hpp() -> Seq<char> {
    seq!['.', 'h', 'p', 'p']
}

pub open spec fn ext_h() -> Seq<char> {
    seq!['.', 'h']
}

pub open spec fn ext_c() -> Seq<char> {
    seq!['.', 'c']
}

/// The file carries the parameter schema of its candidate.
pub open spec fn is_schema_file(f: Seq<char>) -> bool {
    is_suffix_of(ext_json(), f)
}

/// The file is the body template of the `.cpp`/`.c` extension class.
pub open spec fn is_cpp_class_file(f: Seq<char>) -> bool {
    is_suffix_of(ext_cpp(), f) || is_suffix_of(ext_c(), f)
}

/// The file is the body template of the `.h`/`.hpp` extension class.
pub open spec fn is_h_class_file(f: Seq<char>) -> bool {
    is_suffix_of(ext_h(), f) || is_suffix_of(ext_hpp(), f)
}

/// The candidate name of a filename: the filename with one recognized
/// extension stripped, or the whole filename if none applies.
pub open spec fn candidate_name(f: Seq<char>) -> Seq<char> {
    if is_suffix_of(ext_json(), f) {
        f.take(f.len() - 5)
    } else if is_suffix_of(ext_cpp(), f) {
        f.take(f.len() - 4)
    } else if is_suffix_of(ext_hpp(), f) {
        f.take(f.len() - 4)
    } else if is_suffix_of(ext_h(), f) {
        f.take(f.len() - 2)
    } else if is_suffix_of(ext_c(), f) {
        f.take(f.len() - 2)
    } else {
        f
    }
}

/// The listing holds a schema file for this candidate name.
pub open spec fn has_schema_for(files: Seq<Seq<char>>, name: Seq<char>) -> bool {
    exists|j: int|
        0 <= j < files.len() && is_schema_file(#[trigger] files[j]) && candidate_name(files[j])
            == name
}

/// The listing holds a `.cpp`/`.c` body file for this candidate name.
pub open spec fn has_cpp_class_for(files: Seq<Seq<char>>, name: Seq<char>) -> bool {
    exists|j: int|
        0 <= j < files.len() && is_cpp_class_file(#[trigger] files[j]) && candidate_name(files[j])
            == name
}

/// The listing holds a `.h`/`.hpp` body file for this candidate name.
pub open spec fn has_h_class_for(files: Seq<Seq<char>>, name: Seq<char>) -> bool {
    exists|j: int|
        0 <= j < files.len() && is_h_class_file(#[trigger] files[j]) && candidate_name(files[j])
            == name
}

/// A module type is eligible iff the listing holds, under its name, a
/// schema file and one body file of each extension class.
pub open spec fn eligible(files: Seq<Seq<char>>, name: Seq<char>) -> bool {
    &&& has_schema_for(files, name)
    &&& has_cpp_class_for(files, name)
    &&& has_h_class_for(files, name)
}

/// The views of a listing of filenames.
pub open spec fn views_of(files: Seq<String>) -> Seq<Seq<char>> {
    files.map_values(|s: String| s@)
}

proof fn lemma_eligible_one_way(a: Seq<Seq<char>>, b: Seq<Seq<char>>, name: Seq<char>)
    requires
        forall|f: Seq<char>| a.contains(f) <==> b.contains(f),
        eligible(a, name),
    ensures
        eligible(b, name),
{
    let j1 = choose|j: int|
        0 <= j < a.len() && is_schema_file(#[trigger] a[j]) && candidate_name(a[j]) == name;
    assert(a.contains(a[j1]));
    let k1 = choose|k: int| 0 <= k < b.len() && b[k] == a[j1];
    assert(is_schema_file(b[k1]) && candidate_name(b[k1]) == name);
    let j2 = choose|j: int|
        0 <= j < a.len() && is_cpp_class_file(#[trigger] a[j]) && candidate_name(a[j]) == name;
    assert(a.contains(a[j2]));
    let k2 = choose|k: int| 0 <= k < b.len() && b[k] == a[j2];
    assert(is_cpp_class_file(b[k2]) && candidate_name(b[k2]) == name);
    let j3 = choose|j: int|
        0 <= j < a.len() && is_h_class_file(#[trigger] a[j]) && candidate_name(a[j]) == name;
    assert(a.contains(a[j3]));
    let k3 = choose|k: int| 0 <= k < b.len() && b[k] == a[j3];
    assert(is_h_class_file(b[k3]) && candidate_name(b[k3]) == name);
}

/// Which module types are eligible depends only on which filenames the
/// listing holds, not on their order or multiplicity.  Together with the
/// contract of `scan`, whose result holds exactly the eligible names,
/// this says that scanning an unchanged directory twice — even if the
/// directory is listed in a different order — yields the same set of
/// module types.
pub proof fn lemma_scan_depends_on_membership(a: Seq<Seq<char>>, b: Seq<Seq<char>>)
    requires
        forall|f: Seq<char>| a.contains(f) <==> b.contains(f),
    ensures
        forall|name: Seq<char>| #[trigger] eligible(a, name) <==> eligible(b, name),
{
    assert forall|name: Seq<char>| #[trigger] eligible(a, name) <==> eligible(b, name) by {
        if eligible(a, name) {
            lemma_eligible_one_way(a, b, name);
        }
        if eligible(b, name) {
            lemma_eligible_one_way(b, a, name);
        }
    }
}

/// Adding one file to the listing contributes its own class flag to its
/// own candidate name, and nothing to any other name.
proof fn lemma_class_flags_after_push(files: Seq<Seq<char>>, f: Seq<char>, m: Seq<char>)
    ensures
        has_schema_for(files.push(f), m) <==> (has_schema_for(files, m) || (is_schema_file(f)
            && candidate_name(f) == m)),
        has_cpp_class_for(files.push(f), m) <==> (has_cpp_class_for(files, m) || (
        is_cpp_class_file(f) && candidate_name(f) == m)),
        has_h_class_for(files.push(f), m) <==> (has_h_class_for(files, m) || (is_h_class_file(f)
            && candidate_name(f) == m)),
{
    let g = files.push(f);
    let n = files.len() as int;
    assert(g[n] == f);
    assert(forall|j: int| 0 <= j < n ==> g[j] == #[trigger] files[j]);
    if has_schema_for(g, m) {
        let j = choose|j: int|
            0 <= j < g.len() && is_schema_file(#[trigger] g[j]) && candidate_name(g[j]) == m;
        if j < n {
            assert(is_schema_file(files[j]) && candidate_name(files[j]) == m);
        }
    }
    if has_schema_for(files, m) {
        let j = choose|j: int|
            0 <= j < files.len() && is_schema_file(#[trigger] files[j]) && candidate_name(files[j])
                == m;
        assert(is_schema_file(g[j]) && candidate_name(g[j]) == m);
    }
    if has_cpp_class_for(g, m) {
        let j = choose|j: int|
            0 <= j < g.len() && is_cpp_class_file(#[trigger] g[j]) && candidate_name(g[j]) == m;
        if j < n {
            assert(is_cpp_class_file(files[j]) && candidate_name(files[j]) == m);
        }
    }
    if has_cpp_class_for(files, m) {
        let j = choose|j: int|
            0 <= j < files.len() && is_cpp_class_file(#[trigger] files[j]) && candidate_name(
                files[j],
            ) == m;
        assert(is_cpp_class_file(g[j]) && candidate_name(g[j]) == m);
    }
    if has_h_class_for(g, m) {
        let j = choose|j: int|
            0 <= j < g.len() && is_h_class_file(#[trigger] g[j]) && candidate_name(g[j]) == m;
        if j < n {
            assert(is_h_class_file(files[j]) && candidate_name(files[j]) == m);
        }
    }
    if has_h_class_for(files, m) {
        let j = choose|j: int|
            0 <= j < files.len() && is_h_class_file(#[trigger] files[j]) && candidate_name(
                files[j],
            ) == m;
        assert(is_h_class_file(g[j]) && candidate_name(g[j]) == m);
    }
}

/// The completeness filter flips on exactly one file.  Let `f` supply
/// the one class its candidate name still lacks while the other two
/// classes are present: without `f` the name is not eligible, with `f`
/// added it is, and every other name's membership is untouched.  Read in
/// either direction, this says that adding the missing third file flips
/// the name in, and that removing the only file of one class flips it
/// out, leaving all other names as they were.
pub proof fn lemma_completeness_flip(files: Seq<Seq<char>>, f: Seq<char>)
    requires
        ({
            let n = candidate_name(f);
            ||| (is_schema_file(f) && !has_schema_for(files, n) && has_cpp_class_for(files, n)
                && has_h_class_for(files, n))
            ||| (is_cpp_class_file(f) && has_schema_for(files, n) && !has_cpp_class_for(files, n)
                && has_h_class_for(files, n))
            ||| (is_h_class_file(f) && has_schema_for(files, n) && has_cpp_class_for(files, n)
                && !has_h_class_for(files, n))
        }),
    ensures
        !eligible(files, candidate_name(f)),
        eligible(files.push(f), candidate_name(f)),
        forall|m: Seq<char>|
            m != candidate_name(f) ==> (#[trigger] eligible(files.push(f), m) <==> eligible(
                files,
                m,
            )),
{
    let n = candidate_name(f);
    lemma_class_flags_after_push(files, f, n);
    assert forall|m: Seq<char>|
        m != candidate_name(f) implies (#[trigger] eligible(files.push(f), m) <==> eligible(
        files,
        m,
    )) by {
        lemma_class_flags_after_push(files, f, m);
    }
}

fn is_schema_filename(f: &str) -> (r: bool)
    ensures
        r == is_schema_file(f@),
{
    proof {
        reveal_strlit(".json");
        assert(".json"@ =~= ext_json());
    }
    ends_with(f, ".json")
}

fn is_cpp_class_filename(f: &str) -> (r: bool)
    ensures
        r == is_cpp_class_file(f@),
{
    proof {
        reveal_strlit(".cpp");
        reveal_strlit(".c");
        assert(".cpp"@ =~= ext_cpp());
        assert(".c"@ =~= ext_c());
    }
    ends_with(f, ".cpp") || ends_with(f, ".c")
}

fn is_h_class_filename(f: &str) -> (r: bool)
    ensures
        r == is_h_class_file(f@),
{
    proof {
        reveal_strlit(".h");
        reveal_strlit(".hpp");
        assert(".h"@ =~= ext_h());
        assert(".hpp"@ =~= ext_hpp());
    }
    ends_with(f, ".h") || ends_with(f, ".hpp")
}

/// Strips one recognized extension from a filename to obtain the
/// candidate name it contributes to.
pub fn strip_candidate_name(f: &str) -> (r: String)
    ensures
        r@ == candidate_name(f@),
{
    proof {
        reveal_strlit(".json");
        reveal_strlit(".cpp");
        reveal_strlit(".hpp");
        reveal_strlit(".h");
        reveal_strlit(".c");
        assert(".json"@ =~= ext_json());
        assert(".cpp"@ =~= ext_cpp());
        assert(".hpp"@ =~= ext_hpp());
        assert(".h"@ =~= ext_h());
        assert(".c"@ =~= ext_c());
    }
    let n = f.unicode_len();
    if ends_with(f, ".json") {
        let r = f.substring_char(0, n - 5).to_owned();
        proof {
            assert(r@ =~= f@.take(f@.len() - 5));
        }
        r
    } else if ends_with(f, ".cpp") {
        let r = f.substring_char(0, n - 4).to_owned();
        proof {
            assert(r@ =~= f@.take(f@.len() - 4));
        }
        r
    } else if ends_with(f, ".hpp") {
        let r = f.substring_char(0, n - 4).to_owned();
        proof {
            assert(r@ =~= f@.take(f@.len() - 4));
        }
        r
    } else if ends_with(f, ".h") {
        let r = f.substring_char(0, n - 2).to_owned();
        proof {
            assert(r@ =~= f@.take(f@.len() - 2));
        }
        r
    } else if ends_with(f, ".c") {
        let r = f.substring_char(0, n - 2).to_owned();
        proof {
            assert(r@ =~= f@.take(f@.len() - 2));
        }
        r
    } else {
        f.to_owned()
    }
}

fn any_schema_for(files: &Vec<String>, name: &str) -> (r: bool)
    ensures
        r <==> exists|j: int|
            0 <= j < files@.len() && is_schema_file(#[trigger] views_of(files@)[j])
                && candidate_name(views_of(files@)[j]) == name@,
{
    let mut i: usize = 0;
    while i < files.len()
        invariant
            0 <= i <= files@.len(),
            forall|j: int|
                0 <= j < i ==> !(is_schema_file(#[trigger] views_of(files@)[j]) && candidate_name(
                    views_of(files@)[j],
                ) == name@),
        decreases files@.len() - i,
    {
        proof {
            assert(views_of(files@)[i as int] == files@[i as int]@);
        }
        if is_schema_filename(files[i].as_str()) {
            let cand = strip_candidate_name(files[i].as_str());
            if str_eq(cand.as_str(), name) {
                return true;
            }
        }
        i = i + 1;
    }
    false
}

fn any_cpp_class_for(files: &Vec<String>, name: &str) -> (r: bool)
    ensures
        r <==> exists|j: int|
            0 <= j < files@.len() && is_cpp_class_file(#[trigger] views_of(files@)[j])
                && candidate_name(views_of(files@)[j]) == name@,
{
    let mut i: usize = 0;
    while i < files.len()
        invariant
            0 <= i <= files@.len(),
            forall|j: int|
                0 <= j < i ==> !(is_cpp_class_file(#[trigger] views_of(files@)[j])
                    && candidate_name(views_of(files@)[j]) == name@),
        decreases files@.len() - i,
    {
        proof {
            assert(views_of(files@)[i as int] == files@[i as int]@);
        }
        if is_cpp_class_filename(files[i].as_str()) {
            let cand = strip_candidate_name(files[i].as_str());
            if str_eq(cand.as_str(), name) {
                return true;
            }
        }
        i = i + 1;
    }
    false
}

fn any_h_class_for(files: &Vec<String>, name: &str) -> (r: bool)
    ensures
        r <==> exists|j: int|
            0 <= j < files@.len() && is_h_class_file(#[trigger] views_of(files@)[j])
                && candidate_name(views_of(files@)[j]) == name@,
{
    let mut i: usize = 0;
    while i < files.len()
        invariant
            0 <= i <= files@.len(),
            forall|j: int|
                0 <= j < i ==> !(is_h_class_file(#[trigger] views_of(files@)[j]) && candidate_name(
                    views_of(files@)[j],
                ) == name@),
        decreases files@.len() - i,
    {
        proof {
            assert(views_of(files@)[i as int] == files@[i as int]@);
        }
        if is_h_class_filename(files[i].as_str()) {
            let cand = strip_candidate_name(files[i].as_str());
            if str_eq(cand.as_str(), name) {
                return true;
            }
        }
        i = i + 1;
    }
    false
}

fn contains_name(names: &Vec<String>, name: &str) -> (r: bool)
    ensures
        r <==> exists|j: int| 0 <= j < names@.len() && (#[trigger] names@[j])@ == name@,
{
    let mut i: usize = 0;
    while i < names.len()
        invariant
            0 <= i <= names@.len(),
            forall|j: int| 0 <= j < i ==> (#[trigger] names@[j])@ != name@,
        decreases names@.len() - i,
    {
        if str_eq(names[i].as_str(), name) {
            return true;
        }
        i = i + 1;
    }
    false
}

/// Scans a template directory listing and returns the names of the
/// eligible module types: a name is in the result iff the listing holds a
/// schema file and one body file of each extension class for it.  The
/// result lists each name once, in order of first appearance, so the
/// selection menu of one run is reproducible.  An empty listing yields an
/// empty result; an incomplete candidate is silently excluded.
pub fn scan(files: &Vec<String>) -> (r: Vec<String>)
    ensures
        forall|k: int| 0 <= k < r@.len() ==> eligible(views_of(files@), (#[trigger] r@[k])@),
        forall|name: Seq<char>|
            eligible(views_of(files@), name) ==> exists|k: int|
                0 <= k < r@.len() && (#[trigger] r@[k])@ == name,
        forall|k1: int, k2: int|
            0 <= k1 < k2 < r@.len() ==> (#[trigger] r@[k1])@ != (#[trigger] r@[k2])@,
{
    let mut result: Vec<String> = Vec::new();
    let mut i: usize = 0;
    while i < files.len()
        invariant
            0 <= i <= files@.len(),
            forall|k: int|
                0 <= k < result@.len() ==> eligible(views_of(files@), (#[trigger] result@[k])@),
            forall|j: int|
                0 <= j < i ==> !eligible(views_of(files@), candidate_name(
                    #[trigger] views_of(files@)[j],
                )) || exists|k: int|
                    0 <= k < result@.len() && (#[trigger] result@[k])@ == candidate_name(
                        views_of(files@)[j],
                    ),
            forall|k1: int, k2: int|
                0 <= k1 < k2 < result@.len() ==> (#[trigger] result@[k1])@ != (
                #[trigger] result@[k2])@,
        decreases files@.len() - i,
    {
        proof {
            assert(views_of(files@)[i as int] == files@[i as int]@);
        }
        let name = strip_candidate_name(files[i].as_str());
        let ghost prior = result@;
        if !contains_name(&result, name.as_str()) {
            let has_schema = any_schema_for(files, name.as_str());
            let has_cpp = any_cpp_class_for(files, name.as_str());
            let has_h = any_h_class_for(files, name.as_str());
            if has_schema && has_cpp && has_h {
                result.push(name);
            }
        }
        proof {
            assert forall|j: int|
                0 <= j < i + 1 && eligible(
                    views_of(files@),
                    candidate_name(#[trigger] views_of(files@)[j]),
                ) implies exists|k: int|
                0 <= k < result@.len() && (#[trigger] result@[k])@ == candidate_name(
                    views_of(files@)[j],
                ) by {
                if j < i {
                    if prior.len() < result@.len() {
                        let k = choose|k: int|
                            0 <= k < prior.len() && (#[trigger] prior[k])@ == candidate_name(
                                views_of(files@)[j],
                            );
                        assert(result@[k]@ == candidate_name(views_of(files@)[j]));
                    }
                } else {
                    if prior.len() < result@.len() {
                        assert(result@[prior.len() as int]@ == candidate_name(
                            views_of(files@)[j],
                        ));
                    }
                }
            }
        }
        i = i + 1;
    }
    proof {
        assert forall|name: Seq<char>| eligible(views_of(files@), name) implies exists|k: int|
            0 <= k < result@.len() && (#[trigger] result@[k])@ == name by {
            let j = choose|j: int|
                0 <= j < views_of(files@).len() && is_schema_file(#[trigger] views_of(files@)[j])
                    && candidate_name(views_of(files@)[j]) == name;
            assert(candidate_name(views_of(files@)[j]) == name);
        }
    }
    result
}

} // verus!
