//! Template renderer: strict variable substitution plus one uppercase
//! helper.
//!
//! A template is plain text in which a placeholder `{{name}}` stands for
//! the value bound to `name` and `{{upper name}}` for that value passed
//! through the uppercase transform.  A placeholder's name must be
//! non-empty and free of spaces and braces.  Rendering is strict: a
//! placeholder whose name is unbound makes the whole render fail, and a
//! template whose placeholders are malformed (an unclosed `{{`, an empty
//! or ill-formed name) is rejected as a whole.  No output is produced on
//! failure.

use vstd::prelude::*;
use vstd::string::{StrSliceExecFns, StringExecFns};
use crate::params::ParamSet;

verus! {

/// What `str::to_uppercase` returns for a given character sequence; the
/// result depends on the characters alone.
pub uninterp spec fn upper_of(s: Seq<char>) -> Seq<char>;

/// Relies on `str::to_uppercase`: uppercases the text, as a function of
/// the input characters alone (no locale enters).
#[verifier::external_body]
fn uppercase(s: &str) -> (r: String)
    ensures
        r@ == upper_of(s@),
{
    s.to_uppercase()
}

/// One parsed element of a template: a run of literal text, a plain
/// substitution, or a substitution through the uppercase helper.
pub enum Token {
    Lit(Seq<char>),
    Var(Seq<char>),
    Up(Seq<char>),
}

/// The outcome of rendering one document.
pub enum RenderOut {
    Done(Seq<char>),
    Unbound(Seq<char>),
    Malformed,
}

/// The least index at which `}}` occurs in `s`.
pub open spec fn find_close(s: Seq<char>) -> Option<int>
    decreases s.len(),
{
    if s.len() < 2 {
        None
    } else if s[0] == '}' && s[1] == '}' {
        Some(0)
    } else {
        match find_close(s.skip(1)) {
            None => None,
            Some(j) => Some(j + 1),
        }
    }
}

pub proof fn lemma_find_close_props(s: Seq<char>)
    ensures
        match find_close(s) {
            Some(j) => 0 <= j && j + 2 <= s.len() && s[j] == '}' && s[j + 1] == '}' && forall|
                i: int,
            |
                0 <= i < j ==> !(#[trigger] s[i] == '}' && s[i + 1] == '}'),
            None => forall|i: int|
                0 <= i && i + 2 <= s.len() ==> !(#[trigger] s[i] == '}' && s[i + 1] == '}'),
        },
    decreases s.len(),
{
    if s.len() < 2 {
    } else if s[0] == '}' && s[1] == '}' {
    } else {
        lemma_find_close_props(s.skip(1));
        match find_close(s.skip(1)) {
            None => {
                assert forall|i: int| 0 <= i && i + 2 <= s.len() implies !(#[trigger] s[i] == '}'
                    && s[i + 1] == '}') by {
                    if i > 0 {
                        assert(s.skip(1)[i - 1] == s[i]);
                        assert(s.skip(1)[i] == s[i + 1]);
                    }
                }
            },
            Some(j) => {
                assert(s.skip(1)[j] == s[j + 1]);
                assert(s.skip(1)[j + 1] == s[j + 2]);
                assert forall|i: int| 0 <= i < j + 1 implies !(#[trigger] s[i] == '}' && s[i + 1]
                    == '}') by {
                    if i > 0 {
                        assert(s.skip(1)[i - 1] == s[i]);
                        assert(s.skip(1)[i] == s[i + 1]);
                    }
                }
            },
        }
    }
}

/// A placeholder name: non-empty, with no space and no brace.
pub open spec fn valid_key(k: Seq<char>) -> bool {
    k.len() > 0 && forall|i: int|
        0 <= i < k.len() ==> #[trigger] k[i] != ' ' && k[i] != '{' && k[i] != '}'
}

/// The text that invokes the uppercase helper: `upper` and one space.
pub open spec fn upper_marker() -> Seq<char> {
    seq!['u', 'p', 'p', 'e', 'r', ' ']
}

/// Reads the text between `{{` and `}}` as a token, if it is well formed.
pub open spec fn parse_content(c: Seq<char>) -> Option<Token> {
    if c.len() >= 6 && c.take(6) == upper_marker() {
        if valid_key(c.skip(6)) {
            Some(Token::Up(c.skip(6)))
        } else {
            None
        }
    } else if valid_key(c) {
        Some(Token::Var(c))
    } else {
        None
    }
}

/// Parses a template into its tokens; `None` if some placeholder is
/// malformed.  Literal text outside placeholders is kept character by
/// character.
pub open spec fn tokenize(t: Seq<char>) -> Option<Seq<Token>>
    decreases t.len(),
    via tokenize_decreases
{
    if t.len() == 0 {
        Some(Seq::empty())
    } else if t.len() >= 2 && t[0] == '{' && t[1] == '{' {
        match find_close(t.skip(2)) {
            None => None,
            Some(j) => match parse_content(t.skip(2).take(j)) {
                None => None,
                Some(tok) => match tokenize(t.skip(2).skip(j + 2)) {
                    None => None,
                    Some(rest) => Some(seq![tok] + rest),
                },
            },
        }
    } else {
        match tokenize(t.skip(1)) {
            None => None,
            Some(rest) => Some(seq![Token::Lit(seq![t[0]])] + rest),
        }
    }
}

#[via_fn]
proof fn tokenize_decreases(t: Seq<char>) {
    if t.len() >= 2 && t[0] == '{' && t[1] == '{' {
        lemma_find_close_props(t.skip(2));
    }
}

/// The parameter names a token sequence references.
pub open spec fn token_refs(toks: Seq<Token>) -> Set<Seq<char>>
    decreases toks.len(),
{
    if toks.len() == 0 {
        Set::empty()
    } else {
        (match toks[0] {
            Token::Lit(_) => Set::<Seq<char>>::empty(),
            Token::Var(k) => set![k],
            Token::Up(k) => set![k],
        }).union(token_refs(toks.skip(1)))
    }
}

/// Substitutes a token sequence against a parameter map.  The leftmost
/// unbound reference decides the failure; literal text and bound values
/// are emitted in order, upper tokens through the uppercase transform.
pub open spec fn subst(toks: Seq<Token>, m: Map<Seq<char>, Seq<char>>) -> RenderOut
    decreases toks.len(),
{
    if toks.len() == 0 {
        RenderOut::Done(Seq::empty())
    } else {
        let emitted = match toks[0] {
            Token::Lit(s) => Some(s),
            Token::Var(k) => if m.contains_key(k) {
                Some(m[k])
            } else {
                None
            },
            Token::Up(k) => if m.contains_key(k) {
                Some(upper_of(m[k]))
            } else {
                None
            },
        };
        match emitted {
            None => RenderOut::Unbound(
                match toks[0] {
                    Token::Lit(s) => s,
                    Token::Var(k) => k,
                    Token::Up(k) => k,
                },
            ),
            Some(e) => match subst(toks.skip(1), m) {
                RenderOut::Done(s) => RenderOut::Done(e + s),
                other => other,
            },
        }
    }
}

/// What rendering one document against a parameter map yields.
pub open spec fn render_spec(t: Seq<char>, m: Map<Seq<char>, Seq<char>>) -> RenderOut {
    match tokenize(t) {
        None => RenderOut::Malformed,
        Some(toks) => subst(toks, m),
    }
}

/// The parameter names a template references.
pub open spec fn template_refs(t: Seq<char>) -> Set<Seq<char>> {
    match tokenize(t) {
        None => Set::empty(),
        Some(toks) => token_refs(toks),
    }
}

proof fn lemma_subst_refs(toks: Seq<Token>, m: Map<Seq<char>, Seq<char>>)
    ensures
        (subst(toks, m) is Done) <==> (forall|k: Seq<char>|
            token_refs(toks).contains(k) ==> m.contains_key(k)),
        forall|k: Seq<char>|
            subst(toks, m) == RenderOut::Unbound(k) ==> token_refs(toks).contains(k)
                && !m.contains_key(k),
    decreases toks.len(),
{
    if toks.len() == 0 {
    } else {
        lemma_subst_refs(toks.skip(1), m);
        match toks[0] {
            Token::Lit(_) => {},
            Token::Var(k) => {
                assert(token_refs(toks).contains(k));
            },
            Token::Up(k) => {
                assert(token_refs(toks).contains(k));
            },
        }
        assert forall|k: Seq<char>|
            token_refs(toks.skip(1)).contains(k) implies token_refs(toks).contains(k) by {}
    }
}

/// Uppercase helper purity: the helper transforms only the emitted text.
/// A template that is one `{{upper k}}` placeholder renders to the
/// uppercased value, while the parameter map — a value rendering never
/// touches — still binds `k` to the original text.
pub proof fn lemma_upper_helper_purity(
    t: Seq<char>,
    m: Map<Seq<char>, Seq<char>>,
    k: Seq<char>,
)
    requires
        tokenize(t) == Some(seq![Token::Up(k)]),
        m.contains_key(k),
    ensures
        render_spec(t, m) == RenderOut::Done(upper_of(m[k])),
{
    let toks = seq![Token::Up(k)];
    assert(subst(Seq::<Token>::empty(), m) == RenderOut::Done(Seq::<char>::empty()));
    assert(toks.skip(1) =~= Seq::<Token>::empty());
    assert(upper_of(m[k]) + Seq::<char>::empty() =~= upper_of(m[k]));
}

/// Why rendering one document failed.
#[derive(Debug)]
pub enum RenderError {
    /// A placeholder referenced this parameter, and it was not bound.
    UnboundParameter(String),
    /// A placeholder was unclosed, empty, or held an ill-formed name.
    MalformedTemplate,
}

/// Which of the two coupled documents was being rendered.
#[derive(Clone, Copy, PartialEq, Eq, Structural, Debug)]
pub enum DocKind {
    Header,
    Source,
}

/// A failure of the pair renderer: which document failed, and why.
#[derive(Debug)]
pub struct RenderFailure {
    pub document: DocKind,
    pub error: RenderError,
}

/// The render outcome an error value stands for.
pub open spec fn error_matches(e: RenderError, out: RenderOut) -> bool {
    match e {
        RenderError::UnboundParameter(k) => out == RenderOut::Unbound(k@),
        RenderError::MalformedTemplate => out == RenderOut::Malformed,
    }
}

enum ExecToken {
    Lit(String),
    Var(String),
    Up(String),
}

spec fn view_token(t: ExecToken) -> Token {
    match t {
        ExecToken::Lit(s) => Token::Lit(s@),
        ExecToken::Var(s) => Token::Var(s@),
        ExecToken::Up(s) => Token::Up(s@),
    }
}

spec fn extend_toks(prefix: Seq<Token>, rest: Option<Seq<Token>>) -> Option<Seq<Token>> {
    match rest {
        None => None,
        Some(r) => Some(prefix + r),
    }
}

/// True iff the characters of `t` from `from` (inclusive) to `to`
/// (exclusive) form a valid placeholder name.
fn check_key_chars(t: &str, from: usize, to: usize) -> (r: bool)
    requires
        from <= to <= t@.len(),
    ensures
        r == valid_key(t@.subrange(from as int, to as int)),
{
    let ghost key = t@.subrange(from as int, to as int);
    if from >= to {
        return false;
    }
    let mut k = from;
    while k < to
        invariant
            from <= k <= to <= t@.len(),
            key == t@.subrange(from as int, to as int),
            forall|x: int|
                0 <= x < k - from ==> #[trigger] key[x] != ' ' && key[x] != '{' && key[x] != '}',
        decreases to - k,
    {
        let c = t.get_char(k);
        proof {
            assert(key[k - from] == t@[k as int]);
        }
        if c == ' ' || c == '{' || c == '}' {
            return false;
        }
        k = k + 1;
    }
    true
}

#[verifier::rlimit(80)]
fn tokenize_exec(t: &str) -> (r: Option<Vec<ExecToken>>)
    ensures
        match r {
            Some(v) => tokenize(t@) == Some(v@.map_values(|tok: ExecToken| view_token(tok))),
            None => tokenize(t@) is None,
        },
{
    let n = t.unicode_len();
    let mut toks: Vec<ExecToken> = Vec::new();
    let mut i: usize = 0;
    proof {
        assert(t@.skip(0) =~= t@);
        assert(toks@.map_values(|tok: ExecToken| view_token(tok)) =~= Seq::<Token>::empty());
        match tokenize(t@) {
            None => {},
            Some(r) => {
                assert(Seq::<Token>::empty() + r =~= r);
            },
        }
    }
    while i < n
        invariant
            n == t@.len(),
            0 <= i <= n,
            tokenize(t@) == extend_toks(
                toks@.map_values(|tok: ExecToken| view_token(tok)),
                tokenize(t@.skip(i as int)),
            ),
        decreases n - i,
    {
        let ghost prefix = toks@.map_values(|tok: ExecToken| view_token(tok));
        let ghost s = t@.skip(i as int);
        let c0 = t.get_char(i);
        if c0 == '{' && i + 1 < n && t.get_char(i + 1) == '{' {
            proof {
                assert(s[0] == t@[i as int]);
                assert(s[1] == t@[i + 1]);
                assert(s.skip(2) =~= t@.skip(i + 2));
                lemma_find_close_props(t@.skip(i + 2));
            }
            // Scan for the first closing `}}`.
            let mut j: usize = i + 2;
            while j < n - 1 && !(t.get_char(j) == '}' && t.get_char(j + 1) == '}')
                invariant
                    n == t@.len(),
                    2 <= n,
                    i + 2 <= j <= n,
                    forall|k: int| i + 2 <= k < j ==> !(#[trigger] t@[k] == '}' && t@[k + 1] == '}'),
                decreases n - j,
            {
                j = j + 1;
            }
            if j >= n - 1 {
                // No closing braces: the template is malformed.
                proof {
                    let sc = t@.skip(i + 2);
                    assert forall|x: int| 0 <= x && x + 2 <= sc.len() implies !(#[trigger] sc[x]
                        == '}' && sc[x + 1] == '}') by {
                        assert(sc[x] == t@[x + i + 2]);
                        assert(sc[x + 1] == t@[x + i + 3]);
                    }
                    assert(find_close(sc) is None);
                }
                return None;
            }
            proof {
                let sc = t@.skip(i + 2);
                assert(sc[j - i - 2] == t@[j as int]);
                assert(sc[j - i - 1] == t@[j + 1]);
                match find_close(sc) {
                    None => {
                        assert(false);
                    },
                    Some(j0) => {
                        if j0 < j - i - 2 {
                            assert(t@[j0 + i + 2] == sc[j0]);
                            assert(t@[j0 + i + 3] == sc[j0 + 1]);
                            assert(false);
                        }
                        if j0 > j - i - 2 {
                            assert(false);
                        }
                    },
                }
                assert(find_close(sc) == Some(j - i - 2));
            }
            let ghost content = t@.skip(i + 2).take(j - i - 2);
            proof {
                assert(content =~= t@.subrange(i + 2, j as int));
            }
            let tok: ExecToken;
            if j - (i + 2) >= 6 && t.get_char(i + 2) == 'u' && t.get_char(i + 3) == 'p'
                && t.get_char(i + 4) == 'p' && t.get_char(i + 5) == 'e' && t.get_char(i + 6) == 'r'
                && t.get_char(i + 7) == ' ' {
                proof {
                    assert(content.take(6) =~= upper_marker());
                }
                if !check_key_chars(t, i + 8, j) {
                    proof {
                        assert(content.skip(6) =~= t@.subrange(i + 8, j as int));
                    }
                    return None;
                }
                let key = t.substring_char(i + 8, j).to_owned();
                proof {
                    assert(content.skip(6) =~= t@.subrange(i + 8, j as int));
                    assert(key@ == content.skip(6));
                }
                tok = ExecToken::Up(key);
                proof {
                    assert(parse_content(content) == Some(view_token(tok)));
                }
            } else {
                proof {
                    if content.len() >= 6 && content.take(6) == upper_marker() {
                        assert(content[0] == t@[i + 2] && content[0] == upper_marker()[0]);
                        assert(content[1] == t@[i + 3] && content[1] == upper_marker()[1]);
                        assert(content[2] == t@[i + 4] && content[2] == upper_marker()[2]);
                        assert(content[3] == t@[i + 5] && content[3] == upper_marker()[3]);
                        assert(content[4] == t@[i + 6] && content[4] == upper_marker()[4]);
                        assert(content[5] == t@[i + 7] && content[5] == upper_marker()[5]);
                        assert(false);
                    }
                }
                if !check_key_chars(t, i + 2, j) {
                    return None;
                }
                let key = t.substring_char(i + 2, j).to_owned();
                proof {
                    assert(key@ == content);
                }
                tok = ExecToken::Var(key);
                proof {
                    assert(parse_content(content) == Some(view_token(tok)));
                }
            }
            let ghost tok_spec = view_token(tok);
            toks.push(tok);
            proof {
                assert(s.skip(2).skip(j - i) =~= t@.skip(j + 2));
                assert(tokenize(s) == extend_toks(seq![tok_spec], tokenize(t@.skip(j + 2))));
                assert(toks@.map_values(|tok: ExecToken| view_token(tok)) =~= prefix.push(
                    tok_spec,
                ));
                match tokenize(t@.skip(j + 2)) {
                    None => {},
                    Some(rest) => {
                        assert(prefix + (seq![tok_spec] + rest) =~= prefix.push(tok_spec) + rest);
                    },
                }
            }
            i = j + 2;
        } else {
            // A literal character.
            let lit = t.substring_char(i, i + 1).to_owned();
            proof {
                assert(lit@ =~= seq![s[0]]);
                if s.len() >= 2 {
                    assert(s[1] == t@[i + 1]);
                }
                assert(s.skip(1) =~= t@.skip(i + 1));
                assert(tokenize(s) == extend_toks(
                    seq![Token::Lit(seq![s[0]])],
                    tokenize(t@.skip(i + 1)),
                ));
            }
            let ghost tok_spec = Token::Lit(lit@);
            toks.push(ExecToken::Lit(lit));
            proof {
                assert(toks@.map_values(|tok: ExecToken| view_token(tok)) =~= prefix.push(
                    tok_spec,
                ));
                match tokenize(t@.skip(i + 1)) {
                    None => {},
                    Some(rest) => {
                        assert(prefix + (seq![tok_spec] + rest) =~= prefix.push(tok_spec) + rest);
                    },
                }
            }
            i = i + 1;
        }
    }
    proof {
        assert(t@.skip(n as int) =~= Seq::<char>::empty());
        assert(tokenize(t@.skip(n as int)) == Some(Seq::<Token>::empty()));
        let mapped = toks@.map_values(|tok: ExecToken| view_token(tok));
        assert(mapped + Seq::<Token>::empty() =~= mapped);
    }
    Some(toks)
}

proof fn lemma_subst_step(
    all: Seq<Token>,
    m: Map<Seq<char>, Seq<char>>,
    i: int,
    out_old: Seq<char>,
    piece: Seq<char>,
)
    requires
        0 <= i < all.len(),
        subst(all, m) == (match subst(all.skip(i), m) {
            RenderOut::Done(s) => RenderOut::Done(out_old + s),
            other => other,
        }),
        match all[i] {
            Token::Lit(s) => piece == s,
            Token::Var(k) => m.contains_key(k) && piece == m[k],
            Token::Up(k) => m.contains_key(k) && piece == upper_of(m[k]),
        },
    ensures
        subst(all, m) == (match subst(all.skip(i + 1), m) {
            RenderOut::Done(s) => RenderOut::Done((out_old + piece) + s),
            other => other,
        }),
{
    let rem = all.skip(i);
    assert(rem[0] == all[i]);
    assert(rem.skip(1) =~= all.skip(i + 1));
    match subst(all.skip(i + 1), m) {
        RenderOut::Done(s) => {
            assert((out_old + piece) + s =~= out_old + (piece + s));
        },
        _ => {},
    }
}

fn substitute(toks: &Vec<ExecToken>, params: &ParamSet) -> (r: Result<String, RenderError>)
    ensures
        match r {
            Ok(s) => subst(
                toks@.map_values(|tok: ExecToken| view_token(tok)),
                params@,
            ) == RenderOut::Done(s@),
            Err(e) => error_matches(
                e,
                subst(toks@.map_values(|tok: ExecToken| view_token(tok)), params@),
            ) && e is UnboundParameter,
        },
{
    let ghost all = toks@.map_values(|tok: ExecToken| view_token(tok));
    let mut out = String::new();
    let mut i: usize = 0;
    proof {
        assert(all.skip(0) =~= all);
    }
    while i < toks.len()
        invariant
            0 <= i <= toks@.len(),
            all == toks@.map_values(|tok: ExecToken| view_token(tok)),
            subst(all, params@) == (match subst(all.skip(i as int), params@) {
                RenderOut::Done(s) => RenderOut::Done(out@ + s),
                other => other,
            }),
        decreases toks@.len() - i,
    {
        let ghost rem = all.skip(i as int);
        let ghost out_old = out@;
        proof {
            assert(all[i as int] == view_token(toks@[i as int]));
            assert(rem[0] == all[i as int]);
            assert(rem.skip(1) =~= all.skip(i + 1));
        }
        match &toks[i] {
            ExecToken::Lit(s) => {
                out.append(s.as_str());
                proof {
                    lemma_subst_step(all, params@, i as int, out_old, s@);
                }
            },
            ExecToken::Var(k) => {
                match params.get(k.as_str()) {
                    Some(v) => {
                        out.append(v.as_str());
                        proof {
                            lemma_subst_step(all, params@, i as int, out_old, v@);
                        }
                    },
                    None => {
                        return Err(RenderError::UnboundParameter(k.clone()));
                    },
                }
            },
            ExecToken::Up(k) => {
                match params.get(k.as_str()) {
                    Some(v) => {
                        let u = uppercase(v.as_str());
                        out.append(u.as_str());
                        proof {
                            lemma_subst_step(all, params@, i as int, out_old, u@);
                        }
                    },
                    None => {
                        return Err(RenderError::UnboundParameter(k.clone()));
                    },
                }
            },
        }
        i = i + 1;
    }
    proof {
        assert(all.skip(toks@.len() as int) =~= Seq::<Token>::empty());
        assert(out@ + Seq::<char>::empty() =~= out@);
    }
    Ok(out)
}

/// Renders one document against the parameter set: every placeholder is
/// replaced by its bound value, exactly once per occurrence, `{{upper x}}`
/// by the uppercased value.  Fails with the leftmost unbound parameter's
/// name under strict mode, or rejects a malformed template; either way no
/// partial output escapes.  The parameter set itself is read, never
/// changed.
pub fn render_document(template: &str, params: &ParamSet) -> (r: Result<String, RenderError>)
    ensures
        match r {
            Ok(s) => render_spec(template@, params@) == RenderOut::Done(s@),
            Err(e) => error_matches(e, render_spec(template@, params@)),
        },
{
    match tokenize_exec(template) {
        None => Err(RenderError::MalformedTemplate),
        Some(toks) => substitute(&toks, params),
    }
}

/// Renders the header and source documents independently against the
/// same parameter set.  A failure names the document it arose in; the
/// header is rendered first, and a failure in it leaves the source
/// unrendered.
pub fn render_pair(header: &str, source: &str, params: &ParamSet) -> (r: Result<
    (String, String),
    RenderFailure,
>)
    ensures
        match r {
            Ok(pair) => render_spec(header@, params@) == RenderOut::Done(pair.0@) && render_spec(
                source@,
                params@,
            ) == RenderOut::Done(pair.1@),
            Err(f) => match f.document {
                DocKind::Header => error_matches(f.error, render_spec(header@, params@)),
                DocKind::Source => render_spec(header@, params@) is Done && error_matches(
                    f.error,
                    render_spec(source@, params@),
                ),
            },
        },
{
    let header_body = match render_document(header, params) {
        Ok(b) => b,
        Err(e) => {
            return Err(RenderFailure { document: DocKind::Header, error: e });
        },
    };
    let source_body = match render_document(source, params) {
        Ok(b) => b,
        Err(e) => {
            return Err(RenderFailure { document: DocKind::Source, error: e });
        },
    };
    Ok((header_body, source_body))
}

/// Strict binding: for a well-formed template, rendering succeeds iff
/// every referenced parameter is bound, and a failure always names a
/// referenced, unbound parameter — never renders a blank in its place.
pub proof fn lemma_strict_binding(t: Seq<char>, m: Map<Seq<char>, Seq<char>>)
    requires
        tokenize(t) is Some,
    ensures
        (render_spec(t, m) is Done) <==> (forall|k: Seq<char>|
            template_refs(t).contains(k) ==> m.contains_key(k)),
        forall|k: Seq<char>|
            render_spec(t, m) == RenderOut::Unbound(k) ==> template_refs(t).contains(k)
                && !m.contains_key(k),
{
    let toks = tokenize(t)->Some_0;
    lemma_subst_refs(toks, m);
}

} // verus!
