use vstd::prelude::*;

use crate::text::dec_digits;
use crate::text::str_eq;
use crate::text::u64_to_string;
use crate::version::SemVer;
use crate::version::semver_parse_spec;
use crate::version::parse_version;

verus! {

/// A policy script: the path of a script file, or the script text itself.
/// The library works on text; a caller that holds a path reads the file and
/// passes the text inline.
#[derive(Debug)]
pub enum Script {
    File(String),
    Inline(String),
}

/// The failures the policy engine reports. A `Contract` error means the
/// script does not have the shape the engine demands; a `Script` error means
/// a well-shaped script was called and the call itself failed.
#[derive(Clone, Copy, PartialEq, Eq, Structural, Debug)]
pub enum EngineErrorKind {
    Contract,
    Script,
}

/// An engine failure, with its full diagnostic text.
#[derive(Debug)]
pub struct EngineError {
    pub kind: EngineErrorKind,
    pub msg: String,
}

impl EngineError {
    /// The diagnostic text of the error.
    pub fn message(&self) -> (m: String)
        ensures
            m@ == self.msg@,
    {
        self.msg.clone()
    }
}

/// An expression of the policy language: a string literal, a parameter, or a
/// concatenation.
#[derive(Debug)]
pub enum Expr {
    Lit(String),
    Var(String),
    Concat(Box<Expr>, Box<Expr>),
}

/// One function declaration found in a script: its name, its parameter names,
/// whether it was marked private, and its body when the body is a single
/// `return` of an expression the engine can evaluate.
#[derive(Debug)]
pub struct ScriptFnDecl {
    pub name: String,
    pub params: Vec<String>,
    pub private: bool,
    pub body: Option<Expr>,
}

enum Tok {
    Ident(String),
    StrLit(String),
    Punct(char),
}

/// A token with its text as a character sequence.
pub enum TokView {
    Ident(Seq<char>),
    StrLit(Seq<char>),
    Punct(char),
}

spec fn tok_view(t: Tok) -> TokView {
    match t {
        Tok::Ident(w) => TokView::Ident(w@),
        Tok::StrLit(x) => TokView::StrLit(x@),
        Tok::Punct(c) => TokView::Punct(c),
    }
}

spec fn toks_views(ts: Seq<Tok>) -> Seq<TokView> {
    ts.map_values(|t: Tok| tok_view(t))
}

/// Whitespace, as the tokenizer skips it.
pub open spec fn is_space(c: char) -> bool {
    c == ' ' || c == '\t' || c == '\n' || c == '\r'
}

/// Where the identifier run beginning at `i` ends.
pub open spec fn ident_run_end(s: Seq<char>, i: int) -> int
    decreases s.len() - i,
    when 0 <= i <= s.len()
{
    if i >= s.len() {
        i
    } else if is_ident_char(s[i]) {
        ident_run_end(s, i + 1)
    } else {
        i
    }
}

/// The index of the next line break at or after `i`, or the end.
pub open spec fn line_break_at(s: Seq<char>, i: int) -> int
    decreases s.len() - i,
    when 0 <= i <= s.len()
{
    if i >= s.len() {
        i
    } else if s[i] == '\n' {
        i
    } else {
        line_break_at(s, i + 1)
    }
}

/// The index of the next quote at or after `i`, or the end.
pub open spec fn quote_at(s: Seq<char>, i: int) -> int
    decreases s.len() - i,
    when 0 <= i <= s.len()
{
    if i >= s.len() {
        i
    } else if s[i] == '"' {
        i
    } else {
        quote_at(s, i + 1)
    }
}

proof fn lemma_ident_run_end_bounds(s: Seq<char>, i: int)
    requires
        0 <= i <= s.len(),
    ensures
        i <= ident_run_end(s, i) <= s.len(),
    decreases s.len() - i,
{
    if i < s.len() && is_ident_char(s[i]) {
        lemma_ident_run_end_bounds(s, i + 1);
    }
}

proof fn lemma_line_break_at_bounds(s: Seq<char>, i: int)
    requires
        0 <= i <= s.len(),
    ensures
        i <= line_break_at(s, i) <= s.len(),
    decreases s.len() - i,
{
    if i < s.len() && s[i] != '\n' {
        lemma_line_break_at_bounds(s, i + 1);
    }
}

proof fn lemma_quote_at_bounds(s: Seq<char>, i: int)
    requires
        0 <= i <= s.len(),
    ensures
        i <= quote_at(s, i) <= s.len(),
    decreases s.len() - i,
{
    if i < s.len() && s[i] != '"' {
        lemma_quote_at_bounds(s, i + 1);
    }
}

proof fn lemma_ident_run_end_at(s: Seq<char>, i: int, j: int)
    requires
        0 <= i <= j <= s.len(),
        forall|k: int| i <= k < j ==> is_ident_char(s[k]),
        j < s.len() ==> !is_ident_char(s[j]),
    ensures
        ident_run_end(s, i) == j,
    decreases j - i,
{
    if i < j {
        lemma_ident_run_end_at(s, i + 1, j);
    }
}

proof fn lemma_line_break_at_is(s: Seq<char>, i: int, j: int)
    requires
        0 <= i <= j <= s.len(),
        forall|k: int| i <= k < j ==> s[k] != '\n',
        j < s.len() ==> s[j] == '\n',
    ensures
        line_break_at(s, i) == j,
    decreases j - i,
{
    if i < j {
        lemma_line_break_at_is(s, i + 1, j);
    }
}

proof fn lemma_quote_at_is(s: Seq<char>, i: int, j: int)
    requires
        0 <= i <= j <= s.len(),
        forall|k: int| i <= k < j ==> s[k] != '"',
        j < s.len() ==> s[j] == '"',
    ensures
        quote_at(s, i) == j,
    decreases j - i,
{
    if i < j {
        lemma_quote_at_is(s, i + 1, j);
    }
}

#[via_fn]
proof fn toks_from_dec(s: Seq<char>, i: int) {
    if 0 <= i < s.len() {
        let c = s[i];
        if c == '/' && i + 1 < s.len() && s[i + 1] == '/' {
            lemma_line_break_at_bounds(s, i + 2);
        }
        if is_ident_start(c) {
            lemma_ident_run_end_bounds(s, i + 1);
        }
        if c == '"' {
            lemma_quote_at_bounds(s, i + 1);
        }
    }
}

/// The tokens of the script text from position `i` on: whitespace and line
/// comments separate tokens, an identifier run makes one identifier, a quote
/// opens a literal running to the next quote, and any other character stands
/// alone. Nothing when a string literal is unterminated.
pub open spec fn toks_from(s: Seq<char>, i: int) -> Option<Seq<TokView>>
    decreases s.len() - i,
    when 0 <= i <= s.len()
    via toks_from_dec
{
    if i >= s.len() {
        Some(Seq::empty())
    } else {
        let c = s[i];
        if is_space(c) {
            toks_from(s, i + 1)
        } else if c == '/' && i + 1 < s.len() && s[i + 1] == '/' {
            toks_from(s, line_break_at(s, i + 2))
        } else if is_ident_start(c) {
            let j = ident_run_end(s, i + 1);
            match toks_from(s, j) {
                Some(r) => Some(seq![TokView::Ident(s.subrange(i, j))] + r),
                None => None,
            }
        } else if c == '"' {
            let j = quote_at(s, i + 1);
            if j >= s.len() {
                None
            } else {
                match toks_from(s, j + 1) {
                    Some(r) => Some(seq![TokView::StrLit(s.subrange(i + 1, j))] + r),
                    None => None,
                }
            }
        } else {
            match toks_from(s, i + 1) {
                Some(r) => Some(seq![TokView::Punct(c)] + r),
                None => None,
            }
        }
    }
}

spec fn opt_toks_prepend(p: Seq<TokView>, o: Option<Seq<TokView>>) -> Option<Seq<TokView>> {
    match o {
        Some(r) => Some(p + r),
        None => None,
    }
}

/// One piece of an expression body: a string literal or a parameter name.
#[verifier::ext_equal]
pub enum AtomView {
    Lit(Seq<char>),
    Var(Seq<char>),
}

/// One scanned declaration: its name, parameter names and visibility, and
/// the pieces of its body when the body is a single return of literals and
/// parameters joined by `+`.
#[verifier::ext_equal]
pub struct DeclView {
    pub name: Seq<char>,
    pub params: Seq<Seq<char>>,
    pub private: bool,
    pub body: Option<Seq<AtomView>>,
}

/// The pieces an expression concatenates, in order.
pub open spec fn expr_atoms(e: Expr) -> Seq<AtomView>
    decreases e,
{
    match e {
        Expr::Lit(t) => seq![AtomView::Lit(t@)],
        Expr::Var(v) => seq![AtomView::Var(v@)],
        Expr::Concat(a, b) => expr_atoms(*a) + expr_atoms(*b),
    }
}

/// The views of a parameter list.
pub open spec fn param_views(ps: Seq<String>) -> Seq<Seq<char>> {
    ps.map_values(|p: String| p@)
}

/// The view of one scanned declaration.
pub open spec fn decl_view(d: ScriptFnDecl) -> DeclView {
    DeclView {
        name: d.name@,
        params: param_views(d.params@),
        private: d.private,
        body: match d.body {
            Some(e) => Some(expr_atoms(e)),
            None => None,
        },
    }
}

/// The views of a declaration list.
pub open spec fn decls_views(ds: Seq<ScriptFnDecl>) -> Seq<DeclView> {
    ds.map_values(|d: ScriptFnDecl| decl_view(d))
}

/// A parameter list read from position `i` (just after the opening
/// parenthesis): names and commas in any mix, closed by `)`.
pub open spec fn params_from(t: Seq<TokView>, i: int) -> Option<(Seq<Seq<char>>, int)>
    decreases t.len() - i,
    when 0 <= i <= t.len()
{
    if i >= t.len() {
        None
    } else {
        match t[i] {
            TokView::Punct(p) => {
                if p == ')' {
                    Some((Seq::empty(), i + 1))
                } else if p == ',' {
                    params_from(t, i + 1)
                } else {
                    None
                }
            },
            TokView::Ident(w) => match params_from(t, i + 1) {
                Some((ps, j)) => Some((seq![w] + ps, j)),
                None => None,
            },
            TokView::StrLit(_) => None,
        }
    }
}

proof fn lemma_params_from_bounds(t: Seq<TokView>, i: int)
    requires
        0 <= i <= t.len(),
    ensures
        params_from(t, i) matches Some(r) ==> i < r.1 <= t.len(),
    decreases t.len() - i,
{
    if i < t.len() {
        lemma_params_from_bounds(t, i + 1);
    }
}

/// The position just after the brace that closes a body opened at depth
/// `depth`; nothing when the braces do not balance, or nest beyond what the
/// scanner counts.
pub open spec fn body_close(t: Seq<TokView>, i: int, depth: int) -> Option<int>
    decreases t.len() - i,
    when 0 <= i <= t.len() && depth >= 0
{
    if depth == 0 {
        Some(i)
    } else if i >= t.len() {
        None
    } else {
        let d2 = match t[i] {
            TokView::Punct(p) => {
                if p == '{' {
                    depth + 1
                } else if p == '}' {
                    depth - 1
                } else {
                    depth
                }
            },
            _ => depth,
        };
        if d2 > usize::MAX as int {
            None
        } else {
            body_close(t, i + 1, d2)
        }
    }
}

proof fn lemma_body_close_bounds(t: Seq<TokView>, i: int, depth: int)
    requires
        0 <= i <= t.len(),
        depth >= 0,
    ensures
        body_close(t, i, depth) matches Some(j) ==> i <= j <= t.len(),
        depth > 0 ==> (body_close(t, i, depth) matches Some(j) ==> i + 1 <= j),
    decreases t.len() - i,
{
    if depth > 0 && i < t.len() {
        let d2 = match t[i] {
            TokView::Punct(p) => {
                if p == '{' {
                    depth + 1
                } else if p == '}' {
                    depth - 1
                } else {
                    depth
                }
            },
            _ => depth,
        };
        if d2 <= usize::MAX as int {
            lemma_body_close_bounds(t, i + 1, d2);
        }
    }
}

/// The body piece one token stands for.
pub open spec fn atom_of(t: TokView) -> Option<AtomView> {
    match t {
        TokView::StrLit(x) => Some(AtomView::Lit(x)),
        TokView::Ident(v) => Some(AtomView::Var(v)),
        TokView::Punct(_) => None,
    }
}

/// The pieces that `+`-continuations contribute between `i` and `end`.
pub open spec fn chain_atoms(t: Seq<TokView>, i: int, end: int) -> Option<Seq<AtomView>>
    decreases end - i,
    when 0 <= i && i <= end && end <= t.len()
{
    if i >= end {
        Some(Seq::empty())
    } else if t[i] == TokView::Punct('+') && i + 1 < end {
        match atom_of(t[i + 1]) {
            Some(a) => match chain_atoms(t, i + 2, end) {
                Some(r) => Some(seq![a] + r),
                None => None,
            },
            None => None,
        }
    } else {
        None
    }
}

/// The pieces of an expression body in the token range `[from, to)`: an
/// optional leading `return`, an atom, `+`-joined atoms, an optional
/// trailing `;`. Nothing when the range holds anything else.
pub open spec fn body_atoms(t: Seq<TokView>, from: int, to: int) -> Option<Seq<AtomView>> {
    let f2 = if from < to && t[from] == TokView::Ident("return"@) {
        from + 1
    } else {
        from
    };
    let t2 = if to > f2 && t[to - 1] == TokView::Punct(';') {
        to - 1
    } else {
        to
    };
    if f2 >= t2 {
        None
    } else {
        match atom_of(t[f2]) {
            Some(a) => match chain_atoms(t, f2 + 1, t2) {
                Some(r) => Some(seq![a] + r),
                None => None,
            },
            None => None,
        }
    }
}

/// One declaration read from position `i`: an optional `private`, `fn`, the
/// name, the parenthesized parameters, and a brace-balanced body; the result
/// carries the view and the position just past the closing brace.
pub open spec fn item_from(t: Seq<TokView>, i: int) -> Option<(DeclView, int)> {
    let has_priv = 0 <= i < t.len() && t[i] == TokView::Ident("private"@);
    let i0 = if has_priv {
        i + 1
    } else {
        i
    };
    if 0 <= i0 < t.len() && t[i0] == TokView::Ident("fn"@) {
        if i0 + 1 < t.len() && t[i0 + 1] is Ident {
            let name = t[i0 + 1]->Ident_0;
            if i0 + 2 < t.len() && t[i0 + 2] == TokView::Punct('(') {
                match params_from(t, i0 + 3) {
                    Some((params, i3)) => {
                        if i3 < t.len() && t[i3] == TokView::Punct('{') {
                            match body_close(t, i3 + 1, 1) {
                                Some(i4) => Some(
                                    (
                                        DeclView {
                                            name,
                                            params,
                                            private: has_priv,
                                            body: body_atoms(t, i3 + 1, i4 - 1),
                                        },
                                        i4,
                                    ),
                                ),
                                None => None,
                            }
                        } else {
                            None
                        }
                    },
                    None => None,
                }
            } else {
                None
            }
        } else {
            None
        }
    } else {
        None
    }
}

proof fn lemma_item_from_bounds(t: Seq<TokView>, i: int)
    requires
        0 <= i < t.len(),
    ensures
        item_from(t, i) matches Some(r) ==> i < r.1 <= t.len(),
{
    let has_priv = t[i] == TokView::Ident("private"@);
    let i0 = if has_priv {
        i + 1
    } else {
        i
    };
    if 0 <= i0 < t.len() && t[i0] == TokView::Ident("fn"@) && i0 + 2 < t.len() {
        lemma_params_from_bounds(t, i0 + 3);
        match params_from(t, i0 + 3) {
            Some(r) => {
                let i3 = r.1;
                if i3 < t.len() {
                    lemma_body_close_bounds(t, i3 + 1, 1);
                }
            },
            None => {},
        }
    }
}

#[via_fn]
proof fn items_from_dec(t: Seq<TokView>, i: int) {
    if 0 <= i < t.len() {
        lemma_item_from_bounds(t, i);
    }
}

/// The declarations of a token list: items, one after the other, to the end.
pub open spec fn items_from(t: Seq<TokView>, i: int) -> Option<Seq<DeclView>>
    decreases t.len() - i,
    when 0 <= i <= t.len()
    via items_from_dec
{
    if i >= t.len() {
        Some(Seq::empty())
    } else {
        match item_from(t, i) {
            None => None,
            Some((d, j)) => match items_from(t, j) {
                Some(r) => Some(seq![d] + r),
                None => None,
            },
        }
    }
}

/// What scanning a script text yields: its declarations, or nothing when the
/// text does not tokenize or does not parse as a run of declarations.
pub open spec fn scan_script(source: Seq<char>) -> Option<Seq<DeclView>> {
    match toks_from(source, 0) {
        Some(tv) => items_from(tv, 0),
        None => None,
    }
}

pub open spec fn is_ident_start(c: char) -> bool {
    c == '_' || ('a' <= c && c <= 'z') || ('A' <= c && c <= 'Z')
}

pub open spec fn is_ident_char(c: char) -> bool {
    is_ident_start(c) || ('0' <= c && c <= '9')
}

fn ident_start(c: char) -> (r: bool)
    ensures
        r == is_ident_start(c),
{
    c == '_' || ('a' <= c && c <= 'z') || ('A' <= c && c <= 'Z')
}

fn ident_char(c: char) -> (r: bool)
    ensures
        r == is_ident_char(c),
{
    ident_start(c) || ('0' <= c && c <= '9')
}

/// Builds the full text of a syntax diagnostic.
fn syntax_error(what: &str) -> (e: EngineError)
    ensures
        e.kind == EngineErrorKind::Contract,
        e.msg@ == "Syntax error: "@ + what@,
{
    let mut m = String::new();
    m.append("Syntax error: ");
    m.append(what);
    proof {
        assert(m@ =~= "Syntax error: "@ + what@);
    }
    EngineError { kind: EngineErrorKind::Contract, msg: m }
}

/// Cuts a script into tokens: identifiers, string literals and single
/// punctuation characters. Whitespace and `//` line comments separate tokens.
/// String literals run to the next quote, with no escapes.
fn tokenize(s: &str) -> (r: Result<Vec<Tok>, EngineError>)
    ensures
        r matches Ok(toks) ==> toks_from(s@, 0) == Some(toks_views(toks@)),
        r matches Err(e) ==> toks_from(s@, 0) is None && e.kind == EngineErrorKind::Contract,
{
    let n = s.unicode_len();
    let mut toks: Vec<Tok> = Vec::new();
    let mut i: usize = 0;
    proof {
        assert(toks_views(toks@) =~= Seq::<TokView>::empty());
        if toks_from(s@, 0) is Some {
            assert(Seq::<TokView>::empty() + toks_from(s@, 0)->Some_0 =~= toks_from(
                s@,
                0,
            )->Some_0);
        }
    }
    while i < n
        invariant
            i <= n,
            n == s@.len(),
            toks_from(s@, 0) == opt_toks_prepend(toks_views(toks@), toks_from(s@, i as int)),
        decreases n - i,
    {
        let ghost old_views = toks_views(toks@);
        let c = s.get_char(i);
        if c == ' ' || c == '\t' || c == '\n' || c == '\r' {
            i += 1;
        } else if c == '/' && i + 1 < n && s.get_char(i + 1) == '/' {
            // a line comment
            let mut j: usize = i + 2;
            while j < n && s.get_char(j) != '\n'
                invariant
                    i + 2 <= j <= n,
                    n == s@.len(),
                    forall|k: int| i + 2 <= k < j ==> s@[k] != '\n',
                decreases n - j,
            {
                j += 1;
            }
            proof {
                lemma_line_break_at_is(s@, i + 2, j as int);
            }
            i = j;
        } else if ident_start(c) {
            let start = i;
            let mut j: usize = i + 1;
            while j < n && ident_char(s.get_char(j))
                invariant
                    start < j <= n,
                    n == s@.len(),
                    forall|k: int| start + 1 <= k < j ==> is_ident_char(s@[k]),
                decreases n - j,
            {
                j += 1;
            }
            proof {
                lemma_ident_run_end_at(s@, start + 1, j as int);
            }
            toks.push(Tok::Ident(s.substring_char(start, j).to_owned()));
            proof {
                assert(toks_views(toks@) =~= old_views + seq![
                    TokView::Ident(s@.subrange(start as int, j as int)),
                ]);
                if toks_from(s@, j as int) is Some {
                    assert(old_views + (seq![
                        TokView::Ident(s@.subrange(start as int, j as int)),
                    ] + toks_from(s@, j as int)->Some_0) =~= toks_views(toks@) + toks_from(
                        s@,
                        j as int,
                    )->Some_0);
                }
            }
            i = j;
        } else if c == '"' {
            let start = i + 1;
            let mut j: usize = i + 1;
            while j < n && s.get_char(j) != '"'
                invariant
                    start <= j <= n,
                    n == s@.len(),
                    forall|k: int| start <= k < j ==> s@[k] != '"',
                decreases n - j,
            {
                j += 1;
            }
            proof {
                lemma_quote_at_is(s@, start as int, j as int);
            }
            if j == n {
                return Err(syntax_error("unterminated string literal"));
            }
            toks.push(Tok::StrLit(s.substring_char(start, j).to_owned()));
            proof {
                assert(toks_views(toks@) =~= old_views + seq![
                    TokView::StrLit(s@.subrange(start as int, j as int)),
                ]);
                if toks_from(s@, j + 1int) is Some {
                    assert(old_views + (seq![
                        TokView::StrLit(s@.subrange(start as int, j as int)),
                    ] + toks_from(s@, j + 1int)->Some_0) =~= toks_views(toks@) + toks_from(
                        s@,
                        j + 1int,
                    )->Some_0);
                }
            }
            i = j + 1;
        } else {
            toks.push(Tok::Punct(c));
            proof {
                assert(toks_views(toks@) =~= old_views + seq![TokView::Punct(c)]);
                if toks_from(s@, i + 1int) is Some {
                    assert(old_views + (seq![TokView::Punct(c)] + toks_from(
                        s@,
                        i + 1int,
                    )->Some_0) =~= toks_views(toks@) + toks_from(s@, i + 1int)->Some_0);
                }
            }
            i += 1;
        }
    }
    proof {
        assert(toks_from(s@, n as int) == Some(Seq::<TokView>::empty()));
        assert(toks_views(toks@) + Seq::<TokView>::empty() =~= toks_views(toks@));
    }
    Ok(toks)
}

/// Reads the body of an expression function out of its token run: an optional
/// `return`, then literals and parameters joined by `+`, then an optional
/// `;`. Anything else is beyond the engine's expression language.
fn parse_body(toks: &Vec<Tok>, from: usize, to: usize) -> (r: Option<Expr>)
    requires
        from <= to <= toks@.len(),
    ensures
        match r {
            Some(e) => body_atoms(toks_views(toks@), from as int, to as int) == Some(
                expr_atoms(e),
            ),
            None => body_atoms(toks_views(toks@), from as int, to as int) is None,
        },
{
    let ghost tv = toks_views(toks@);
    proof {
        assert(forall|k: int| 0 <= k < toks@.len() ==> tv[k] == tok_view(#[trigger] toks@[k]));
    }
    let mut i: usize = from;
    if i < to {
        if let Tok::Ident(w) = &toks[i] {
            if str_eq(w.as_str(), "return") {
                i += 1;
            }
        }
    }
    let ghost f2 = i as int;
    proof {
        assert(f2 == if from < to && tv[from as int] == TokView::Ident("return"@) {
            from + 1int
        } else {
            from as int
        });
    }
    let mut end: usize = to;
    if end > i {
        if let Tok::Punct(p) = &toks[end - 1] {
            if *p == ';' {
                end -= 1;
            }
        }
    }
    let ghost t2 = end as int;
    proof {
        assert(t2 == if to > f2 && tv[to - 1int] == TokView::Punct(';') {
            to - 1int
        } else {
            to as int
        });
    }
    if i >= end {
        return None;
    }
    let acc0: Expr = match &toks[i] {
        Tok::StrLit(t) => Expr::Lit(t.clone()),
        Tok::Ident(v) => Expr::Var(v.clone()),
        Tok::Punct(_) => {
            return None;
        },
    };
    let mut acc: Expr = acc0;
    proof {
        let a0 = atom_of(tv[f2])->Some_0;
        assert(expr_atoms(acc) =~= seq![a0]);
        if chain_atoms(tv, f2 + 1, t2) is Some {
            assert(seq![a0] + chain_atoms(tv, f2 + 1, t2)->Some_0 =~= expr_atoms(acc)
                + chain_atoms(tv, f2 + 1, t2)->Some_0);
        }
    }
    i += 1;
    while i < end
        invariant
            from <= f2 < t2 == end <= toks@.len(),
            f2 < i <= end,
            tv == toks_views(toks@),
            match chain_atoms(tv, i as int, t2) {
                Some(r) => body_atoms(tv, from as int, to as int) == Some(expr_atoms(acc) + r),
                None => body_atoms(tv, from as int, to as int) is None,
            },
        decreases end - i,
    {
        proof {
            assert(tv[i as int] == tok_view(toks@[i as int]));
        }
        match &toks[i] {
            Tok::Punct(p) => {
                if *p != '+' {
                    return None;
                }
            },
            _ => {
                return None;
            },
        }
        if i + 1 >= end {
            return None;
        }
        proof {
            assert(tv[i + 1int] == tok_view(toks@[i + 1int]));
        }
        let rhs: Expr = match &toks[i + 1] {
            Tok::StrLit(t) => Expr::Lit(t.clone()),
            Tok::Ident(v) => Expr::Var(v.clone()),
            Tok::Punct(_) => {
                return None;
            },
        };
        let ghost old_acc = acc;
        acc = Expr::Concat(Box::new(acc), Box::new(rhs));
        proof {
            let a = atom_of(tv[i + 1int])->Some_0;
            assert(expr_atoms(rhs) =~= seq![a]);
            assert(expr_atoms(acc) =~= expr_atoms(old_acc) + seq![a]);
            if chain_atoms(tv, i + 2int, t2) is Some {
                let r = chain_atoms(tv, i + 2int, t2)->Some_0;
                assert(expr_atoms(old_acc) + (seq![a] + r) =~= expr_atoms(acc) + r);
            }
        }
        i += 2;
    }
    proof {
        assert(chain_atoms(tv, end as int, t2) == Some(Seq::<AtomView>::empty()));
        assert(expr_atoms(acc) + Seq::<AtomView>::empty() =~= expr_atoms(acc));
    }
    Some(acc)
}

/// Scans a script for its function declarations: a sequence of
/// `fn name(params) { ... }` items, each optionally marked `private`. Bodies
/// are kept when they fit the engine's expression language, so that the
/// function can later be called; other bodies are only checked for balanced
/// braces. The result is exactly what `scan_script` makes of the text.
#[verifier::loop_isolation(false)]
pub fn parse_script(source: &str) -> (r: Result<Vec<ScriptFnDecl>, EngineError>)
    ensures
        r matches Ok(decls) ==> scan_script(source@) == Some(decls_views(decls@)),
        r matches Err(e) ==> scan_script(source@) is None && e.kind == EngineErrorKind::Contract,
{
    let toks = match tokenize(source) {
        Ok(t) => t,
        Err(e) => {
            return Err(e);
        },
    };
    let ghost tv = toks_views(toks@);
    let n = toks.len();
    let mut decls: Vec<ScriptFnDecl> = Vec::new();
    let mut i: usize = 0;
    proof {
        assert(forall|k: int| 0 <= k < toks@.len() ==> tv[k] == tok_view(#[trigger] toks@[k]));
        assert(decls_views(decls@) =~= Seq::<DeclView>::empty());
        if items_from(tv, 0) is Some {
            assert(Seq::<DeclView>::empty() + items_from(tv, 0)->Some_0 =~= items_from(
                tv,
                0,
            )->Some_0);
        }
    }
    while i < n
        invariant
            i <= n,
            n == toks@.len(),
            tv == toks_views(toks@),
            tv.len() == n,
            forall|k: int| 0 <= k < toks@.len() ==> tv[k] == tok_view(#[trigger] toks@[k]),
            match items_from(tv, i as int) {
                Some(rest) => items_from(tv, 0) == Some(decls_views(decls@) + rest),
                None => items_from(tv, 0) is None,
            },
        decreases n - i,
    {
        let ghost i_entry = i as int;
        let mut private = false;
        if let Tok::Ident(w) = &toks[i] {
            if str_eq(w.as_str(), "private") {
                private = true;
                i += 1;
                if i >= n {
                    proof {
                        assert(tv[i_entry] == TokView::Ident("private"@));
                        assert(item_from(tv, i_entry) is None);
                    }
                    return Err(syntax_error("expected 'fn' after 'private'"));
                }
            }
        }
        proof {
            assert(private == (tv[i_entry] == TokView::Ident("private"@)));
            assert(i as int == if private {
                i_entry + 1
            } else {
                i_entry
            });
        }
        let ghost i0 = i as int;
        match &toks[i] {
            Tok::Ident(w) => {
                if !str_eq(w.as_str(), "fn") {
                    proof {
                        assert(tv[i0] == TokView::Ident(w@));
                        assert(item_from(tv, i_entry) is None);
                    }
                    return Err(syntax_error("expected a function declaration"));
                }
            },
            _ => {
                proof {
                    assert(tv[i0] == tok_view(toks@[i0]));
                    assert(item_from(tv, i_entry) is None);
                }
                return Err(syntax_error("expected a function declaration"));
            },
        }
        proof {
            assert(tv[i0] == TokView::Ident("fn"@));
        }
        i += 1;
        let name: String = if i < n {
            match &toks[i] {
                Tok::Ident(w) => w.clone(),
                _ => {
                    return Err(syntax_error("expected a function name"));
                },
            }
        } else {
            return Err(syntax_error("expected a function name"));
        };
        proof {
            assert(tv[i0 + 1] is Ident && tv[i0 + 1]->Ident_0 == name@);
        }
        i += 1;
        if i >= n || !matches!(&toks[i], Tok::Punct(p) if *p == '(') {
            return Err(syntax_error("expected '(' after the function name"));
        }
        proof {
            assert(tv[i0 + 2] == TokView::Punct('('));
        }
        i += 1;
        let ghost p0 = i as int;
        let mut params: Vec<String> = Vec::new();
        let mut closed = false;
        proof {
            assert(param_views(params@) =~= Seq::<Seq<char>>::empty());
            if params_from(tv, p0) is Some {
                let ps = params_from(tv, p0)->Some_0.0;
                assert(Seq::<Seq<char>>::empty() + ps =~= ps);
            }
        }
        while i < n && !closed
            invariant
                p0 <= i as int,
                i <= n,
                n == toks@.len(),
                tv == toks_views(toks@),
                tv.len() == n,
                forall|k: int| 0 <= k < toks@.len() ==> tv[k] == tok_view(#[trigger] toks@[k]),
                !closed ==> match params_from(tv, i as int) {
                    Some(r) => params_from(tv, p0) == Some((param_views(params@) + r.0, r.1)),
                    None => params_from(tv, p0) is None,
                },
                closed ==> params_from(tv, p0) == Some((param_views(params@), i as int)),
            decreases n - i,
        {
            proof {
                assert(tv[i as int] == tok_view(toks@[i as int]));
            }
            match &toks[i] {
                Tok::Punct(p) => {
                    if *p == ')' {
                        closed = true;
                        proof {
                            assert(params_from(tv, i as int) == Some(
                                (Seq::<Seq<char>>::empty(), i + 1int),
                            ));
                            assert(param_views(params@) + Seq::<Seq<char>>::empty() =~= param_views(
                                params@,
                            ));
                        }
                        i += 1;
                    } else if *p == ',' {
                        i += 1;
                    } else {
                        proof {
                            assert(params_from(tv, i as int) is None);
                            assert(params_from(tv, p0) is None);
                            assert(item_from(tv, i_entry) is None);
                        }
                        return Err(syntax_error("expected a parameter name or ')'"));
                    }
                },
                Tok::Ident(w) => {
                    let ghost old_pv = param_views(params@);
                    params.push(w.clone());
                    proof {
                        assert(param_views(params@) =~= old_pv + seq![w@]);
                        if params_from(tv, i + 1int) is Some {
                            let r = params_from(tv, i + 1int)->Some_0;
                            assert(old_pv + (seq![w@] + r.0) =~= param_views(params@) + r.0);
                        }
                    }
                    i += 1;
                },
                _ => {
                    proof {
                        assert(params_from(tv, i as int) is None);
                        assert(params_from(tv, p0) is None);
                        assert(item_from(tv, i_entry) is None);
                    }
                    return Err(syntax_error("expected a parameter name or ')'"));
                },
            }
        }
        if !closed {
            return Err(syntax_error("expected ')' in the parameter list"));
        }
        if i >= n || !matches!(&toks[i], Tok::Punct(p) if *p == '{') {
            return Err(syntax_error("expected '{' to open the function body"));
        }
        proof {
            assert(tv[i as int] == TokView::Punct('{'));
        }
        let ghost i3 = i as int;
        i += 1;
        let body_start = i;
        let mut depth: usize = 1;
        while i < n && depth > 0
            invariant
                body_start as int == i3 + 1,
                body_start <= i <= n,
                n == toks@.len(),
                tv == toks_views(toks@),
                tv.len() == n,
                forall|k: int| 0 <= k < toks@.len() ==> tv[k] == tok_view(#[trigger] toks@[k]),
                body_close(tv, i3 + 1, 1) == body_close(tv, i as int, depth as int),
                i == body_start ==> depth == 1,
            decreases n - i,
        {
            proof {
                assert(tv[i as int] == tok_view(toks@[i as int]));
            }
            match &toks[i] {
                Tok::Punct(p) => {
                    if *p == '{' {
                        if depth == usize::MAX {
                            proof {
                                assert(body_close(tv, i as int, depth as int) is None);
                                assert(body_close(tv, i3 + 1, 1) is None);
                                assert(item_from(tv, i_entry) is None);
                            }
                            return Err(syntax_error("function body nests too deep"));
                        }
                        depth += 1;
                    } else if *p == '}' {
                        depth -= 1;
                    }
                },
                _ => {},
            }
            i += 1;
        }
        if depth > 0 {
            return Err(syntax_error("expected '}' to close the function body"));
        }
        let ghost i4 = i as int;
        proof {
            assert(body_close(tv, i3 + 1, 1) == Some(i4));
            lemma_body_close_bounds(tv, i3 + 1, 1);
        }
        let body = parse_body(&toks, body_start, i - 1);
        let decl = ScriptFnDecl { name, params, private, body };
        proof {
            let dv = decl_view(decl);
            assert(dv.body == body_atoms(tv, i3 + 1, i4 - 1));
            assert(item_from(tv, i_entry) == Some((dv, i4)));
            let ghost old_dvs = decls_views(decls@);
            if items_from(tv, i4) is Some {
                let rest = items_from(tv, i4)->Some_0;
                assert(old_dvs + (seq![dv] + rest) =~= (old_dvs + seq![dv]) + rest);
            }
        }
        let ghost old_decls = decls@;
        decls.push(decl);
        proof {
            assert(decls_views(decls@) =~= decls_views(old_decls) + seq![
                decl_view(decls@[decls@.len() - 1]),
            ]);
        }
    }
    proof {
        assert(items_from(tv, n as int) == Some(Seq::<DeclView>::empty()));
        assert(decls_views(decls@) + Seq::<DeclView>::empty() =~= decls_views(decls@));
    }
    Ok(decls)
}

/// The full text of an engine diagnostic.
pub open spec fn runtime_error_chars(m: Seq<char>) -> Seq<char> {
    "Runtime error: "@ + m
}

/// The diagnostic for a required function that the script does not declare.
pub open spec fn missing_fn_chars(name: Seq<char>) -> Seq<char> {
    "Function '"@ + name + "' is required but not found"@
}

/// The diagnostic for a version function declared with parameters.
pub open spec fn no_params_chars(name: Seq<char>, n_params: nat) -> Seq<char> {
    "Function '"@ + name + "' should not have any parameters, found: "@ + dec_digits(n_params)
}

/// The diagnostic for an install function whose parameter count is not one.
pub open spec fn one_param_chars(n_params: nat) -> Seq<char> {
    "Function '"@ + "install_version"@ + "' should have exactly one parameter, found: "@
        + dec_digits(n_params)
}

/// The diagnostic for a required function marked private.
pub open spec fn private_fn_chars(name: Seq<char>) -> Seq<char> {
    "Function '"@ + name + "' should not be private"@
}

/// The diagnostic for an install function whose parameter is not `version`.
pub open spec fn param_name_chars() -> Seq<char> {
    "Function 'install_version' should have a string parameter named 'version'"@
}

/// Whether some declaration carries the name.
pub open spec fn has_fn(decls: Seq<DeclView>, name: Seq<char>) -> bool {
    exists|i: int| 0 <= i < decls.len() && decls[i].name == name
}

/// The first rule broken by a declaration of the zero-parameter function
/// `name`: a parameter list that is not empty, then a private marking.
pub open spec fn zero_arg_violation(decls: Seq<DeclView>, name: Seq<char>) -> Option<Seq<char>>
    decreases decls.len(),
{
    if decls.len() == 0 {
        None
    } else {
        let d = decls[0];
        if d.name == name {
            if d.params.len() != 0 {
                Some(no_params_chars(name, d.params.len()))
            } else if d.private {
                Some(private_fn_chars(name))
            } else {
                zero_arg_violation(decls.skip(1), name)
            }
        } else {
            zero_arg_violation(decls.skip(1), name)
        }
    }
}

/// The first rule broken by a declaration of `install_version`: parameter
/// count, then visibility, then the parameter's name.
pub open spec fn install_violation(decls: Seq<DeclView>) -> Option<Seq<char>>
    decreases decls.len(),
{
    if decls.len() == 0 {
        None
    } else {
        let d = decls[0];
        if d.name == "install_version"@ {
            if d.params.len() != 1 {
                Some(one_param_chars(d.params.len()))
            } else if d.private {
                Some(private_fn_chars("install_version"@))
            } else if d.params[0] != "version"@ {
                Some(param_name_chars())
            } else {
                install_violation(decls.skip(1))
            }
        } else {
            install_violation(decls.skip(1))
        }
    }
}

/// The first contract violation of a script, checked function by function in
/// the order latest, current, install: first that the function exists, then
/// its shape.
pub open spec fn validation_error(decls: Seq<DeclView>) -> Option<Seq<char>> {
    if !has_fn(decls, "latest_version"@) {
        Some(missing_fn_chars("latest_version"@))
    } else if zero_arg_violation(decls, "latest_version"@) is Some {
        zero_arg_violation(decls, "latest_version"@)
    } else if !has_fn(decls, "current_version"@) {
        Some(missing_fn_chars("current_version"@))
    } else if zero_arg_violation(decls, "current_version"@) is Some {
        zero_arg_violation(decls, "current_version"@)
    } else if !has_fn(decls, "install_version"@) {
        Some(missing_fn_chars("install_version"@))
    } else {
        install_violation(decls)
    }
}

fn contract_error_2(head: &str, name: &str, tail: &str) -> (e: EngineError)
    ensures
        e.kind == EngineErrorKind::Contract,
        e.msg@ == "Runtime error: "@ + (head@ + name@ + tail@),
{
    let mut m = String::new();
    m.append("Runtime error: ");
    m.append(head);
    m.append(name);
    m.append(tail);
    proof {
        assert(m@ =~= "Runtime error: "@ + (head@ + name@ + tail@));
    }
    EngineError { kind: EngineErrorKind::Contract, msg: m }
}

fn contract_error_count(head: &str, name: &str, tail: &str, count: usize) -> (e: EngineError)
    ensures
        e.kind == EngineErrorKind::Contract,
        e.msg@ == "Runtime error: "@ + (head@ + name@ + tail@ + dec_digits(count as nat)),
{
    let mut m = String::new();
    m.append("Runtime error: ");
    m.append(head);
    m.append(name);
    m.append(tail);
    m.append(u64_to_string(count as u64).as_str());
    proof {
        assert(m@ =~= "Runtime error: "@ + (head@ + name@ + tail@ + dec_digits(count as nat)));
    }
    EngineError { kind: EngineErrorKind::Contract, msg: m }
}

/// Checks every declaration of the zero-parameter function `name`.
#[verifier::loop_isolation(false)]
fn check_zero_arg(decls: &Vec<ScriptFnDecl>, name: &str) -> (r: Option<EngineError>)
    ensures
        match r {
            Some(e) => zero_arg_violation(decls_views(decls@), name@) is Some && e.kind
                == EngineErrorKind::Contract && e.msg@ == runtime_error_chars(
                zero_arg_violation(decls_views(decls@), name@)->Some_0,
            ),
            None => zero_arg_violation(decls_views(decls@), name@) is None,
        },
{
    let ghost dv = decls_views(decls@);
    proof {
        assert(dv.skip(0) =~= dv);
        assert(forall|k: int| 0 <= k < decls@.len() ==> dv[k] == decl_view(#[trigger] decls@[k]));
    }
    let n = decls.len();
    let mut i: usize = 0;
    while i < n
        invariant
            i <= n,
            n == decls@.len(),
            zero_arg_violation(dv, name@) == zero_arg_violation(dv.skip(i as int), name@),
        decreases n - i,
    {
        proof {
            assert(dv.skip(i as int).skip(1) =~= dv.skip(i + 1int));
            assert(dv.skip(i as int)[0] == dv[i as int]);
        }
        let d = &decls[i];
        if str_eq(d.name.as_str(), name) {
            if d.params.len() != 0 {
                return Some(
                    contract_error_count(
                        "Function '",
                        name,
                        "' should not have any parameters, found: ",
                        d.params.len(),
                    ),
                );
            }
            if d.private {
                return Some(contract_error_2("Function '", name, "' should not be private"));
            }
        }
        i += 1;
    }
    None
}

/// Checks every declaration of `install_version`.
#[verifier::loop_isolation(false)]
fn check_install(decls: &Vec<ScriptFnDecl>) -> (r: Option<EngineError>)
    ensures
        match r {
            Some(e) => install_violation(decls_views(decls@)) is Some && e.kind
                == EngineErrorKind::Contract && e.msg@ == runtime_error_chars(
                install_violation(decls_views(decls@))->Some_0,
            ),
            None => install_violation(decls_views(decls@)) is None,
        },
{
    let ghost dv = decls_views(decls@);
    proof {
        assert(dv.skip(0) =~= dv);
        assert(forall|k: int| 0 <= k < decls@.len() ==> dv[k] == decl_view(#[trigger] decls@[k]));
    }
    let n = decls.len();
    let mut i: usize = 0;
    while i < n
        invariant
            i <= n,
            n == decls@.len(),
            install_violation(dv) == install_violation(dv.skip(i as int)),
        decreases n - i,
    {
        proof {
            assert(dv.skip(i as int).skip(1) =~= dv.skip(i + 1int));
            assert(dv.skip(i as int)[0] == dv[i as int]);
        }
        let d = &decls[i];
        if str_eq(d.name.as_str(), "install_version") {
            proof {
                assert(dv[i as int].params =~= param_views(d.params@));
            }
            if d.params.len() != 1 {
                return Some(
                    contract_error_count(
                        "Function '",
                        "install_version",
                        "' should have exactly one parameter, found: ",
                        d.params.len(),
                    ),
                );
            }
            if d.private {
                return Some(
                    contract_error_2("Function '", "install_version", "' should not be private"),
                );
            }
            proof {
                assert(dv[i as int].params[0] == d.params@[0]@);
            }
            if !str_eq(d.params[0].as_str(), "version") {
                let mut m = String::new();
                m.append("Runtime error: ");
                m.append(
                    "Function 'install_version' should have a string parameter named 'version'",
                );
                proof {
                    assert(m@ =~= runtime_error_chars(param_name_chars()));
                }
                return Some(EngineError { kind: EngineErrorKind::Contract, msg: m });
            }
        }
        i += 1;
    }
    None
}

/// Whether some declaration carries the name.
#[verifier::loop_isolation(false)]
fn has_fn_named(decls: &Vec<ScriptFnDecl>, name: &str) -> (r: bool)
    ensures
        r == has_fn(decls_views(decls@), name@),
{
    let ghost dv = decls_views(decls@);
    proof {
        assert(forall|k: int| 0 <= k < decls@.len() ==> dv[k] == decl_view(#[trigger] decls@[k]));
    }
    let n = decls.len();
    let mut i: usize = 0;
    while i < n
        invariant
            i <= n,
            n == decls@.len(),
            forall|j: int| 0 <= j < i ==> dv[j].name != name@,
        decreases n - i,
    {
        if str_eq(decls[i].name.as_str(), name) {
            proof {
                assert(dv[i as int].name == name@);
            }
            return true;
        }
        i += 1;
    }
    false
}

/// Validates the declarations of a script against the engine's contract, and
/// reports the first violation, in the order latest, current, install.
pub fn validate_decls(decls: &Vec<ScriptFnDecl>) -> (r: Option<EngineError>)
    ensures
        match r {
            Some(e) => validation_error(decls_views(decls@)) is Some && e.kind
                == EngineErrorKind::Contract && e.msg@ == runtime_error_chars(
                validation_error(decls_views(decls@))->Some_0,
            ),
            None => validation_error(decls_views(decls@)) is None,
        },
{
    if !has_fn_named(decls, "latest_version") {
        return Some(contract_error_2("Function '", "latest_version", "' is required but not found"));
    }
    if let Some(e) = check_zero_arg(decls, "latest_version") {
        return Some(e);
    }
    if !has_fn_named(decls, "current_version") {
        return Some(
            contract_error_2("Function '", "current_version", "' is required but not found"),
        );
    }
    if let Some(e) = check_zero_arg(decls, "current_version") {
        return Some(e);
    }
    if !has_fn_named(decls, "install_version") {
        return Some(
            contract_error_2("Function '", "install_version", "' is required but not found"),
        );
    }
    check_install(decls)
}

/// The argument bound to parameter `v`: parameters and arguments are matched
/// up position by position, the first match wins.
pub open spec fn lookup_param(params: Seq<String>, args: Seq<Seq<char>>, v: Seq<char>) -> Option<
    Seq<char>,
>
    decreases params.len(),
{
    if params.len() == 0 || args.len() == 0 {
        None
    } else if params[0]@ == v {
        Some(args[0])
    } else {
        lookup_param(params.skip(1), args.skip(1), v)
    }
}

/// The diagnostic for a name no parameter binds.
pub open spec fn var_error_chars(v: Seq<char>) -> Seq<char> {
    "Variable '"@ + v + "' is not defined"@
}

/// What evaluating an expression yields under the given parameter binding:
/// the resulting text, or the diagnostic of the first failure.
pub open spec fn eval_expr_spec(e: Expr, params: Seq<String>, args: Seq<Seq<char>>) -> Result<
    Seq<char>,
    Seq<char>,
>
    decreases e,
{
    match e {
        Expr::Lit(t) => Ok(t@),
        Expr::Var(v) => match lookup_param(params, args, v@) {
            Some(a) => Ok(a),
            None => Err(var_error_chars(v@)),
        },
        Expr::Concat(a, b) => {
            let ra = eval_expr_spec(*a, params, args);
            if ra is Err {
                ra
            } else {
                let rb = eval_expr_spec(*b, params, args);
                if rb is Err {
                    rb
                } else {
                    Ok(ra->Ok_0 + rb->Ok_0)
                }
            }
        },
    }
}

/// The views of a list of strings.
pub open spec fn views_of(args: Seq<String>) -> Seq<Seq<char>> {
    args.map_values(|a: String| a@)
}

fn lookup_arg(params: &Vec<String>, args: &Vec<String>, v: &str) -> (r: Option<String>)
    requires
        params@.len() == args@.len(),
    ensures
        match r {
            Some(a) => lookup_param(params@, views_of(args@), v@) == Some(a@),
            None => lookup_param(params@, views_of(args@), v@) is None,
        },
{
    proof {
        assert(views_of(args@).len() == args@.len());
        assert(params@.skip(0) =~= params@);
        assert(views_of(args@).skip(0) =~= views_of(args@));
    }
    let n = params.len();
    let mut i: usize = 0;
    while i < n
        invariant
            i <= n,
            n == params@.len() == args@.len(),
            lookup_param(params@, views_of(args@), v@) == lookup_param(
                params@.skip(i as int),
                views_of(args@).skip(i as int),
                v@,
            ),
        decreases n - i,
    {
        proof {
            assert(params@.skip(i as int).skip(1) =~= params@.skip(i + 1int));
            assert(views_of(args@).skip(i as int).skip(1) =~= views_of(args@).skip(i + 1int));
            assert(params@.skip(i as int)[0] == params@[i as int]);
            assert(views_of(args@).skip(i as int)[0] == args@[i as int]@);
        }
        if str_eq(params[i].as_str(), v) {
            return Some(args[i].clone());
        }
        i += 1;
    }
    None
}

fn script_error_2(head: &str, name: &str, tail: &str) -> (e: EngineError)
    ensures
        e.kind == EngineErrorKind::Script,
        e.msg@ == "Runtime error: "@ + (head@ + name@ + tail@),
{
    let mut m = String::new();
    m.append("Runtime error: ");
    m.append(head);
    m.append(name);
    m.append(tail);
    proof {
        assert(m@ =~= "Runtime error: "@ + (head@ + name@ + tail@));
    }
    EngineError { kind: EngineErrorKind::Script, msg: m }
}

/// Evaluates an expression of the policy language under a parameter binding.
fn eval_expr(e: &Expr, params: &Vec<String>, args: &Vec<String>) -> (r: Result<String, EngineError>)
    requires
        params@.len() == args@.len(),
    ensures
        r matches Ok(s) ==> eval_expr_spec(*e, params@, views_of(args@)) == Ok::<_, Seq<char>>(s@),
        r matches Err(er) ==> er.kind == EngineErrorKind::Script && eval_expr_spec(
            *e,
            params@,
            views_of(args@),
        ) is Err && er.msg@ == runtime_error_chars(
            eval_expr_spec(*e, params@, views_of(args@))->Err_0,
        ),
    decreases *e,
{
    match e {
        Expr::Lit(t) => Ok(t.clone()),
        Expr::Var(v) => match lookup_arg(params, args, v.as_str()) {
            Some(a) => Ok(a),
            None => Err(script_error_2("Variable '", v.as_str(), "' is not defined")),
        },
        Expr::Concat(a, b) => {
            let ra = match eval_expr(a, params, args) {
                Ok(s) => s,
                Err(er) => {
                    return Err(er);
                },
            };
            let rb = match eval_expr(b, params, args) {
                Ok(s) => s,
                Err(er) => {
                    return Err(er);
                },
            };
            Ok(ra.concat(rb.as_str()))
        },
    }
}

/// The first declaration carrying the name.
pub open spec fn find_decl(decls: Seq<ScriptFnDecl>, name: Seq<char>) -> Option<ScriptFnDecl>
    decreases decls.len(),
{
    if decls.len() == 0 {
        None
    } else if decls[0].name@ == name {
        Some(decls[0])
    } else {
        find_decl(decls.skip(1), name)
    }
}

/// The diagnostic for calling a function the script does not declare.
pub open spec fn fn_not_found_chars(name: Seq<char>) -> Seq<char> {
    "Function '"@ + name + "' not found"@
}

/// The diagnostic for calling a function with the wrong number of arguments.
pub open spec fn arity_chars(name: Seq<char>) -> Seq<char> {
    "Function '"@ + name + "' was called with the wrong number of arguments"@
}

/// The diagnostic for calling a function whose body is beyond the engine's
/// expression language.
pub open spec fn opaque_body_chars(name: Seq<char>) -> Seq<char> {
    "Function '"@ + name + "' has a body the engine cannot evaluate"@
}

/// What calling the script function `name` on `args` yields: the text it
/// returns, or the full diagnostic of the failure. The first declaration with
/// the name is the one called; its parameter count must match, and its body
/// must lie in the engine's expression language.
pub open spec fn call_result(decls: Seq<ScriptFnDecl>, name: Seq<char>, args: Seq<Seq<char>>) -> Result<
    Seq<char>,
    Seq<char>,
> {
    match find_decl(decls, name) {
        None => Err(runtime_error_chars(fn_not_found_chars(name))),
        Some(d) => {
            if d.params@.len() != args.len() {
                Err(runtime_error_chars(arity_chars(name)))
            } else {
                match d.body {
                    None => Err(runtime_error_chars(opaque_body_chars(name))),
                    Some(b) => match eval_expr_spec(b, d.params@, args) {
                        Ok(s) => Ok(s),
                        Err(m) => Err(runtime_error_chars(m)),
                    },
                }
            }
        },
    }
}

/// The validated form of a policy script. Once constructed, the script is
/// known to declare the three required functions in the required shape; the
/// engine never calls into an unvalidated script.
pub struct WasaupEngine {
    fns: Vec<ScriptFnDecl>,
}

impl WasaupEngine {
    /// The declarations of the loaded script.
    pub closed spec fn decls(&self) -> Seq<ScriptFnDecl> {
        self.fns@
    }

    /// Seals a list of declarations as the engine, after holding them to the
    /// contract: `current_version` and `latest_version` without parameters
    /// and `install_version` with the single parameter `version`, none of
    /// them private. Succeeds exactly when validation reports nothing; the
    /// error carries the first violation, checked in the order latest,
    /// current, install.
    pub fn from_decls(decls: Vec<ScriptFnDecl>) -> (r: Result<WasaupEngine, EngineError>)
        ensures
            (r is Ok) == (validation_error(decls_views(decls@)) is None),
            r matches Ok(en) ==> en.decls() == decls@,
            r matches Err(e) ==> e.kind == EngineErrorKind::Contract && e.msg@
                == runtime_error_chars(validation_error(decls_views(decls@))->Some_0),
    {
        match validate_decls(&decls) {
            Some(e) => Err(e),
            None => Ok(WasaupEngine { fns: decls }),
        }
    }

    /// Loads and validates a policy script: the text is scanned for its
    /// declarations — exactly the scan that `scan_script` describes — and the
    /// declarations sealed by `from_decls`: the engine exists exactly when
    /// the text scans and its declarations validate, and the error otherwise
    /// carries the first violation. The library itself reads no files: a
    /// `File` script is refused, and the caller that holds a path loads the
    /// text and passes it inline.
    pub fn new(script: Script) -> (r: Result<WasaupEngine, EngineError>)
        ensures
            (script matches Script::File(_)) ==> r is Err,
            script matches Script::Inline(code_s) ==> match scan_script(code_s@) {
                None => r is Err,
                Some(dvs) => match validation_error(dvs) {
                    Some(m) => r matches Err(e) && e.msg@ == runtime_error_chars(m),
                    None => r matches Ok(en) && decls_views(en.decls()) == dvs,
                },
            },
            r matches Ok(en) ==> validation_error(decls_views(en.decls())) is None,
            r matches Err(e) ==> e.kind == EngineErrorKind::Contract,
    {
        let code: String = match script {
            Script::Inline(code) => code,
            Script::File(path) => {
                return Err(
                    script_file_error(path.as_str()),
                );
            },
        };
        let decls = match parse_script(code.as_str()) {
            Ok(d) => d,
            Err(e) => {
                return Err(e);
            },
        };
        Self::from_decls(decls)
    }

    /// Calls a script function by name. Public so that policies beyond the
    /// three required functions remain reachable; the required functions have
    /// their own entry points below.
    pub fn call_fn(&self, name: &str, args: &Vec<String>) -> (r: Result<String, EngineError>)
        ensures
            r matches Ok(s) ==> call_result(self.decls(), name@, views_of(args@)) == Ok::<
                _,
                Seq<char>,
            >(s@),
            r matches Err(e) ==> e.kind == EngineErrorKind::Script && call_result(
                self.decls(),
                name@,
                views_of(args@),
            ) == Err::<Seq<char>, _>(e.msg@),
    {
        proof {
            assert(self.fns@.skip(0) =~= self.fns@);
        }
        let n = self.fns.len();
        let mut i: usize = 0;
        while i < n
            invariant
                i <= n,
                n == self.fns@.len(),
                find_decl(self.fns@, name@) == find_decl(self.fns@.skip(i as int), name@),
            decreases n - i,
        {
            proof {
                assert(self.fns@.skip(i as int).skip(1) =~= self.fns@.skip(i + 1int));
                assert(self.fns@.skip(i as int)[0] == self.fns@[i as int]);
            }
            let d = &self.fns[i];
            if str_eq(d.name.as_str(), name) {
                if d.params.len() != args.len() {
                    return Err(
                        script_error_2(
                            "Function '",
                            name,
                            "' was called with the wrong number of arguments",
                        ),
                    );
                }
                match &d.body {
                    None => {
                        return Err(
                            script_error_2("Function '", name, "' has a body the engine cannot evaluate"),
                        );
                    },
                    Some(b) => {
                        return eval_expr(b, &d.params, args);
                    },
                }
            }
            i += 1;
        }
        Err(script_error_2("Function '", name, "' not found"))
    }
}

fn script_file_error(path: &str) -> (e: EngineError)
    ensures
        e.kind == EngineErrorKind::Contract,
{
    let mut m = String::new();
    m.append("Runtime error: the script file '");
    m.append(path);
    m.append("' was not loaded; the caller reads script files and passes the text inline");
    EngineError { kind: EngineErrorKind::Contract, msg: m }
}

/// The diagnostic when a version function's text does not parse as a
/// semantic version.
pub open spec fn parse_fail_chars(raw: Seq<char>, label: Seq<char>, diag: Seq<char>) -> Seq<char> {
    "Failed to parse '"@ + raw + "' as "@ + label + ": "@ + diag
}

impl WasaupEngine {
    /// Calls the zero-argument script function `name` and parses its text as
    /// a semantic version; `label` names the role in the diagnostic.
    fn version_of_call(&self, name: &str, label: &str) -> (r: Result<SemVer, EngineError>)
        ensures
            ({
                let c = call_result(self.decls(), name@, Seq::<Seq<char>>::empty());
                match r {
                    Ok(v) => c is Ok && semver_parse_spec(c->Ok_0) == Ok::<_, Seq<char>>(
                        (v.major, v.minor, v.patch, v.pre@, v.build@),
                    ),
                    Err(e) => e.kind == EngineErrorKind::Script && if c is Err {
                        e.msg@ == c->Err_0
                    } else {
                        semver_parse_spec(c->Ok_0) is Err && e.msg@ == runtime_error_chars(
                            parse_fail_chars(
                                c->Ok_0,
                                label@,
                                semver_parse_spec(c->Ok_0)->Err_0,
                            ),
                        )
                    },
                }
            }),
    {
        let args: Vec<String> = Vec::new();
        proof {
            assert(views_of(args@) =~= Seq::<Seq<char>>::empty());
        }
        let raw = match self.call_fn(name, &args) {
            Ok(s) => s,
            Err(e) => {
                return Err(e);
            },
        };
        match parse_version(raw.as_str()) {
            Ok(v) => Ok(v),
            Err(diag) => {
                let mut m = String::new();
                m.append("Runtime error: ");
                m.append("Failed to parse '");
                m.append(raw.as_str());
                m.append("' as ");
                m.append(label);
                m.append(": ");
                m.append(diag.as_str());
                proof {
                    assert(m@ =~= runtime_error_chars(
                        parse_fail_chars(raw@, label@, diag@),
                    ));
                }
                Err(EngineError { kind: EngineErrorKind::Script, msg: m })
            },
        }
    }

    /// The version the program runs at now, as the script reports it.
    pub fn current_version(&self) -> (r: Result<SemVer, EngineError>)
        ensures
            ({
                let c = call_result(self.decls(), "current_version"@, Seq::<Seq<char>>::empty());
                match r {
                    Ok(v) => c is Ok && semver_parse_spec(c->Ok_0) == Ok::<_, Seq<char>>(
                        (v.major, v.minor, v.patch, v.pre@, v.build@),
                    ),
                    Err(e) => e.kind == EngineErrorKind::Script && if c is Err {
                        e.msg@ == c->Err_0
                    } else {
                        semver_parse_spec(c->Ok_0) is Err && e.msg@ == runtime_error_chars(
                            parse_fail_chars(
                                c->Ok_0,
                                "current version"@,
                                semver_parse_spec(c->Ok_0)->Err_0,
                            ),
                        )
                    },
                }
            }),
    {
        self.version_of_call("current_version", "current version")
    }

    /// The newest version available, as the script reports it.
    pub fn latest_version(&self) -> (r: Result<SemVer, EngineError>)
        ensures
            ({
                let c = call_result(self.decls(), "latest_version"@, Seq::<Seq<char>>::empty());
                match r {
                    Ok(v) => c is Ok && semver_parse_spec(c->Ok_0) == Ok::<_, Seq<char>>(
                        (v.major, v.minor, v.patch, v.pre@, v.build@),
                    ),
                    Err(e) => e.kind == EngineErrorKind::Script && if c is Err {
                        e.msg@ == c->Err_0
                    } else {
                        semver_parse_spec(c->Ok_0) is Err && e.msg@ == runtime_error_chars(
                            parse_fail_chars(
                                c->Ok_0,
                                "latest version"@,
                                semver_parse_spec(c->Ok_0)->Err_0,
                            ),
                        )
                    },
                }
            }),
    {
        self.version_of_call("latest_version", "latest version")
    }

    /// Asks the script where the given version is installed from: the
    /// returned text is the candidate location; classifying it is the
    /// installer's business, not the engine's.
    pub fn install_version(&self, version: &str) -> (r: Result<String, EngineError>)
        ensures
            ({
                let c = call_result(self.decls(), "install_version"@, seq![version@]);
                match r {
                    Ok(loc) => c == Ok::<_, Seq<char>>(loc@),
                    Err(e) => e.kind == EngineErrorKind::Script && c == Err::<Seq<char>, _>(
                        e.msg@,
                    ),
                }
            }),
    {
        let mut args: Vec<String> = Vec::new();
        args.push(version.to_owned());
        proof {
            assert(views_of(args@) =~= seq![version@]);
        }
        self.call_fn("install_version", &args)
    }
}

/// A declaration is in the shape the engine demands of the zero-parameter
/// function `name`, or does not carry that name.
pub open spec fn well_shaped_zero_arg(d: DeclView, name: Seq<char>) -> bool {
    d.name == name ==> (d.params.len() == 0 && !d.private)
}

/// A declaration is in the shape the engine demands of `install_version`, or
/// does not carry that name.
pub open spec fn well_shaped_install(d: DeclView) -> bool {
    d.name == "install_version"@ ==> (d.params.len() == 1 && !d.private && d.params[0]
        == "version"@)
}

/// A script exposes the three required functions: each is declared, and every
/// declaration carrying one of the three names is well shaped.
pub open spec fn exposes_required_fns(decls: Seq<DeclView>) -> bool {
    &&& has_fn(decls, "latest_version"@)
    &&& has_fn(decls, "current_version"@)
    &&& has_fn(decls, "install_version"@)
    &&& forall|i: int|
        0 <= i < decls.len() ==> well_shaped_zero_arg(#[trigger] decls[i], "latest_version"@)
            && well_shaped_zero_arg(decls[i], "current_version"@) && well_shaped_install(decls[i])
}

proof fn lemma_zero_arg_ok(decls: Seq<DeclView>, name: Seq<char>)
    requires
        forall|i: int| 0 <= i < decls.len() ==> well_shaped_zero_arg(#[trigger] decls[i], name),
    ensures
        zero_arg_violation(decls, name) is None,
    decreases decls.len(),
{
    if decls.len() > 0 {
        assert(forall|i: int|
            0 <= i < decls.skip(1).len() ==> well_shaped_zero_arg(
                #[trigger] decls.skip(1)[i],
                name,
            )) by {
            assert(forall|i: int|
                0 <= i < decls.skip(1).len() ==> decls.skip(1)[i] == decls[i + 1]);
        }
        lemma_zero_arg_ok(decls.skip(1), name);
    }
}

proof fn lemma_install_ok(decls: Seq<DeclView>)
    requires
        forall|i: int| 0 <= i < decls.len() ==> well_shaped_install(#[trigger] decls[i]),
    ensures
        install_violation(decls) is None,
    decreases decls.len(),
{
    if decls.len() > 0 {
        assert(forall|i: int|
            0 <= i < decls.skip(1).len() ==> well_shaped_install(#[trigger] decls.skip(1)[i])) by {
            assert(forall|i: int|
                0 <= i < decls.skip(1).len() ==> decls.skip(1)[i] == decls[i + 1]);
        }
        lemma_install_ok(decls.skip(1));
    }
}

/// Every script that exposes the three required functions loads: validation
/// reports no violation.
pub proof fn lemma_valid_script_loads(decls: Seq<DeclView>)
    requires
        exposes_required_fns(decls),
    ensures
        validation_error(decls) is None,
{
    lemma_zero_arg_ok(decls, "latest_version"@);
    lemma_zero_arg_ok(decls, "current_version"@);
    lemma_install_ok(decls);
}

/// A script missing exactly one of the three required functions fails to
/// load, and the violation names the missing function.
pub proof fn lemma_missing_function_named(decls: Seq<DeclView>, name: Seq<char>)
    requires
        name == "latest_version"@ || name == "current_version"@ || name == "install_version"@,
        !has_fn(decls, name),
        name != "latest_version"@ ==> has_fn(decls, "latest_version"@),
        name != "current_version"@ ==> has_fn(decls, "current_version"@),
        name != "install_version"@ ==> has_fn(decls, "install_version"@),
        forall|i: int|
            0 <= i < decls.len() ==> well_shaped_zero_arg(#[trigger] decls[i], "latest_version"@)
                && well_shaped_zero_arg(decls[i], "current_version"@) && well_shaped_install(
                decls[i],
            ),
    ensures
        validation_error(decls) == Some(missing_fn_chars(name)),
{
    lemma_zero_arg_ok(decls, "latest_version"@);
    lemma_zero_arg_ok(decls, "current_version"@);
    lemma_install_ok(decls);
    reveal_strlit("latest_version");
    reveal_strlit("current_version");
    reveal_strlit("install_version");
}

} // verus!
