//! Prompt labels for the parameter collector: a parameter name such as
//! `module_name` is shown to the user as `Module Name`.  The collector
//! itself — how values are gathered — is the caller's concern.

use vstd::prelude::*;
use vstd::string::{StrSliceExecFns, StringExecFns};

verus! {

/// What `titlecase::titlecase` yields for a given text; the style is
/// fixed, so the result depends on the text alone.
pub uninterp spec fn titlecase_of(s: Seq<char>) -> Seq<char>;

/// The text holds no `(`.
pub open spec fn paren_free(s: Seq<char>) -> bool {
    forall|i: int| 0 <= i < s.len() ==> #[trigger] s[i] != '('
}

/// True iff the text holds no `(`.
pub fn is_paren_free(s: &str) -> (r: bool)
    ensures
        r == paren_free(s@),
{
    let n = s.unicode_len();
    let mut i: usize = 0;
    while i < n
        invariant
            n == s@.len(),
            0 <= i <= n,
            forall|j: int| 0 <= j < i ==> #[trigger] s@[j] != '(',
        decreases n - i,
    {
        if s.get_char(i) == '(' {
            return false;
        }
        i = i + 1;
    }
    true
}

/// Relies on `titlecase::titlecase`: capitalizes English text according
/// to a fixed title-case style, as a function of the input text alone.
/// The call recurses once per leading `(` of a word, so a text with very
/// many consecutive parentheses can exhaust the stack and abort; texts
/// holding `(` are therefore excluded here and screened by
/// `prompt_label_or_plain`.
#[verifier::external_body]
fn titlecase_text(s: &str) -> (r: String)
    requires
        paren_free(s@),
    ensures
        r@ == titlecase_of(s@),
{
    titlecase::titlecase(s)
}

/// The text with every underscore replaced by a space.
pub open spec fn underscores_to_spaces(s: Seq<char>) -> Seq<char> {
    s.map_values(|c: char| if c == '_' { ' ' } else { c })
}

fn replace_underscores(s: &str) -> (r: String)
    ensures
        r@ == underscores_to_spaces(s@),
{
    let n = s.unicode_len();
    let mut out = String::new();
    let mut i: usize = 0;
    proof {
        assert(out@ =~= underscores_to_spaces(s@).take(0));
    }
    while i < n
        invariant
            n == s@.len(),
            0 <= i <= n,
            out@ == underscores_to_spaces(s@).take(i as int),
        decreases n - i,
    {
        let c = s.get_char(i);
        if c == '_' {
            out.append(" ");
            proof {
                reveal_strlit(" ");
                assert(" "@ =~= seq![' ']);
            }
        } else {
            let piece = s.substring_char(i, i + 1);
            proof {
                assert(piece@ =~= seq![s@[i as int]]);
            }
            out.append(piece);
        }
        proof {
            assert(out@ =~= underscores_to_spaces(s@).take(i + 1));
        }
        i = i + 1;
    }
    proof {
        assert(underscores_to_spaces(s@).take(n as int) =~= underscores_to_spaces(s@));
    }
    out
}

/// The label under which the collector asks for a parameter: the name
/// with underscores turned to spaces, put in title case.  Parameter
/// names holding `(` are excluded (see `titlecase_text`); callers with
/// an arbitrary name screen it through `prompt_label_or_plain`.
pub fn prompt_label(key: &str) -> (r: String)
    requires
        paren_free(key@),
    ensures
        r@ == titlecase_of(underscores_to_spaces(key@)),
{
    let replaced = replace_underscores(key);
    proof {
        assert forall|i: int|
            0 <= i < underscores_to_spaces(key@).len() implies #[trigger] underscores_to_spaces(
            key@,
        )[i] != '(' by {
            assert(key@[i] != '(');
        }
    }
    titlecase_text(replaced.as_str())
}

/// The prompt label for any parameter name: the title-cased label where
/// the name is free of parentheses, and the plain name with underscores
/// turned to spaces where it is not.
pub fn prompt_label_or_plain(key: &str) -> (r: String)
    ensures
        paren_free(key@) ==> r@ == titlecase_of(underscores_to_spaces(key@)),
        !paren_free(key@) ==> r@ == underscores_to_spaces(key@),
{
    if is_paren_free(key) {
        prompt_label(key)
    } else {
        replace_underscores(key)
    }
}

} // verus!
