//! The declaration tokenizer: it cuts the remaining text into classified
//! spans by trying recognizers in a fixed priority order and always consuming
//! the first match.
use vstd::prelude::*;
use crate::text::{
    ws_run_from, nonws_run_from, word_run_back, find_char_from, find2_from,
    rfind_char, starts_with_at, contains_in, exec_ws_run_from, exec_nonws_run_from,
    exec_word_run_back, exec_find_char_from, exec_find2_from, exec_rfind_char,
    exec_starts_with_at, exec_contains_in, clone_chars, str_to_chars, lemma_ws_run_bounds,
    lemma_find_char_bounds, lemma_starts_with_first,
};

verus! {

#[derive(Debug, Clone, Copy, PartialEq, Eq, Structural)]
pub enum TokenType {
    Comment,
    Typedef,
    Function,
    Const,
    PrivateToken,
    PreprDefine,
    PreprInclude,
    PreprIf,
    PreprElse,
    PreprEndif,
    Whitespace,
}

/// The mathematical value of a token: its kind, its identifier (empty for
/// structural tokens) and the verbatim span it was cut from.
#[verifier::ext_equal]
pub struct TokenModel {
    pub tt: TokenType,
    pub id: Seq<char>,
    pub span: Seq<char>,
}

/// A classified lexical span. `id` is the identifier contributed by the
/// token (empty for whitespace, comments and structural tokens), `span` the
/// verbatim text it was cut from.
#[derive(Debug)]
pub struct Token {
    pub tt: TokenType,
    pub id: Vec<char>,
    pub span: Vec<char>,
}

impl View for Token {
    type V = TokenModel;

    open spec fn view(&self) -> TokenModel {
        TokenModel { tt: self.tt, id: self.id@, span: self.span@ }
    }
}

/// The prefix of `s` up to (not including) the first line break, or all of
/// `s` when there is none.
pub open spec fn line_span(s: Seq<char>) -> Seq<char> {
    match find_char_from(s, 0, '\n') {
        Some(j) => s.take(j),
        None => s,
    }
}

pub open spec fn tok_whitespace(s: Seq<char>) -> TokenModel {
    TokenModel { tt: TokenType::Whitespace, id: Seq::empty(), span: s.take(ws_run_from(s, 0)) }
}

/// A block comment runs through the closing marker (or to the end of input
/// when unterminated); a line comment runs to the next line break.
pub open spec fn tok_comment(s: Seq<char>) -> TokenModel {
    if starts_with_at(s, 0, "/*"@) {
        let span = match find2_from(s, 0, '*', '/') {
            Some(j) => s.take(j + 2),
            None => s,
        };
        TokenModel { tt: TokenType::Comment, id: Seq::empty(), span }
    } else {
        TokenModel { tt: TokenType::Comment, id: Seq::empty(), span: line_span(s) }
    }
}

pub open spec fn tok_prepr_endif(s: Seq<char>) -> TokenModel {
    TokenModel { tt: TokenType::PreprEndif, id: Seq::empty(), span: line_span(s) }
}

pub open spec fn tok_prepr_else(s: Seq<char>) -> TokenModel {
    TokenModel { tt: TokenType::PreprElse, id: Seq::empty(), span: line_span(s) }
}

/// An `#if`-family line: the whole directive line is kept, and also serves
/// as the token's identifier placeholder.
pub open spec fn tok_prepr_if(s: Seq<char>) -> TokenModel {
    TokenModel { tt: TokenType::PreprIf, id: line_span(s), span: line_span(s) }
}

pub open spec fn prepr_if_applies(s: Seq<char>) -> bool {
    starts_with_at(s, 0, "#if "@) || starts_with_at(s, 0, "#ifdef "@) || starts_with_at(
        s,
        0,
        "#ifndef "@,
    )
}

/// An include directive; `delim` closes it. The span runs through the
/// closing delimiter; the identifier is the included path. An include with
/// no closing delimiter is a grammar error (`None`).
pub open spec fn tok_include(s: Seq<char>, delim: char) -> Option<TokenModel> {
    match find_char_from(s, 10, delim) {
        Some(j) => Some(
            TokenModel {
                tt: TokenType::PreprInclude,
                id: s.subrange(10, j),
                span: s.take(j + 1),
            },
        ),
        None => None,
    }
}

/// A `#define` line; the identifier is the first whitespace-delimited word
/// after the keyword, and a name starting with `_` marks the token private.
/// A define with no name at all is a grammar error (`None`).
pub open spec fn tok_define(s: Seq<char>) -> Option<TokenModel> {
    let span = line_span(s);
    if span.len() < 8 {
        None
    } else {
        let a = 8 + ws_run_from(span, 8);
        let k = nonws_run_from(span, a);
        if k == 0 {
            None
        } else {
            Some(
                TokenModel {
                    tt: if 8 < s.len() && s[8] == '_' {
                        TokenType::PrivateToken
                    } else {
                        TokenType::PreprDefine
                    },
                    id: span.subrange(a, a + k),
                    span,
                },
            )
        }
    }
}

/// End (exclusive) of a typedef span: the first `;` that is not nested
/// inside braces, or the end of input.
pub open spec fn typedef_end(s: Seq<char>, i: int, depth: int) -> int
    decreases s.len() - i,
{
    if !(0 <= i < s.len()) {
        s.len() as int
    } else if s[i] == '{' {
        typedef_end(s, i + 1, depth + 1)
    } else if s[i] == '}' {
        typedef_end(s, i + 1, depth - 1)
    } else if s[i] == ';' && depth == 0 {
        i + 1
    } else {
        typedef_end(s, i + 1, depth)
    }
}

/// A typedef: the identifier is the word run just before the terminating
/// `;`, and a name starting with `_` marks the token private.
pub open spec fn tok_typedef(s: Seq<char>) -> TokenModel {
    let e = typedef_end(s, 0, 0);
    let span = s.take(e);
    let r = word_run_back(span, e - 1);
    let id = span.subrange(e - 1 - r, e - 1);
    TokenModel {
        tt: if r > 0 && span[e - 1 - r] == '_' {
            TokenType::PrivateToken
        } else {
            TokenType::Typedef
        },
        id,
        span,
    }
}

/// A const declaration applies when the span up to the next `;` contains the
/// keyword `const`; the identifier is the word run just before the `;`.
pub open spec fn const_applies(s: Seq<char>) -> bool {
    match find_char_from(s, 0, ';') {
        Some(j) => contains_in(s, 0, j + 1, "const"@),
        None => false,
    }
}

pub open spec fn tok_const(s: Seq<char>) -> TokenModel {
    let j = find_char_from(s, 0, ';')->Some_0;
    let span = s.take(j + 1);
    let r = word_run_back(span, j);
    TokenModel { tt: TokenType::Const, id: span.subrange(j - r, j), span }
}

/// A function prototype applies when the span up to the next `;` contains a
/// `(`; the identifier is the word run just before the last `(`.
pub open spec fn function_applies(s: Seq<char>) -> bool {
    match find_char_from(s, 0, ';') {
        Some(j) => rfind_char(s.take(j + 1), j + 1, '(') is Some,
        None => false,
    }
}

pub open spec fn tok_function(s: Seq<char>) -> TokenModel {
    let j = find_char_from(s, 0, ';')->Some_0;
    let span = s.take(j + 1);
    let li = rfind_char(span, j + 1, '(')->Some_0;
    let r = word_run_back(span, li);
    TokenModel { tt: TokenType::Function, id: span.subrange(li - r, li), span }
}

/// The next token of the remaining text `s`: recognizers are tried in a
/// fixed priority order and the first match is consumed. `None` means no
/// recognizer matches (or a directive is malformed): a grammar error.
pub open spec fn next_token_spec(s: Seq<char>) -> Option<TokenModel> {
    if ws_run_from(s, 0) > 0 {
        Some(tok_whitespace(s))
    } else if starts_with_at(s, 0, "/*"@) || starts_with_at(s, 0, "//"@) {
        Some(tok_comment(s))
    } else if starts_with_at(s, 0, "#endif"@) {
        Some(tok_prepr_endif(s))
    } else if starts_with_at(s, 0, "#include \""@) {
        tok_include(s, '"')
    } else if starts_with_at(s, 0, "#include <"@) {
        tok_include(s, '>')
    } else if starts_with_at(s, 0, "#define "@) {
        tok_define(s)
    } else if prepr_if_applies(s) {
        Some(tok_prepr_if(s))
    } else if starts_with_at(s, 0, "#else"@) {
        Some(tok_prepr_else(s))
    } else if starts_with_at(s, 0, "typedef"@) {
        Some(tok_typedef(s))
    } else if const_applies(s) {
        Some(tok_const(s))
    } else if function_applies(s) {
        Some(tok_function(s))
    } else {
        None
    }
}

pub proof fn lemma_typedef_end_bounds(s: Seq<char>, i: int, depth: int)
    requires
        0 <= i <= s.len(),
    ensures
        i <= typedef_end(s, i, depth) <= s.len(),
        i < s.len() ==> i + 1 <= typedef_end(s, i, depth),
    decreases s.len() - i,
{
    if 0 <= i < s.len() {
        lemma_typedef_end_bounds(s, i + 1, depth + 1);
        lemma_typedef_end_bounds(s, i + 1, depth - 1);
        lemma_typedef_end_bounds(s, i + 1, depth);
    }
}

/// Every recognized token has a non-empty span that is a prefix of the
/// remaining text: the tokenizer always makes progress and never invents
/// characters.
pub proof fn lemma_next_token_span(s: Seq<char>)
    ensures
        match next_token_spec(s) {
            Some(t) => 1 <= t.span.len() <= s.len() && t.span == s.take(t.span.len() as int),
            None => true,
        },
{
    reveal_strlit("/*");
    reveal_strlit("//");
    reveal_strlit("#endif");
    reveal_strlit("#include \"");
    reveal_strlit("#include <");
    reveal_strlit("#define ");
    reveal_strlit("#if ");
    reveal_strlit("#ifdef ");
    reveal_strlit("#ifndef ");
    reveal_strlit("#else");
    reveal_strlit("typedef");
    lemma_ws_run_bounds(s, 0);
    lemma_find_char_bounds(s, 0, '\n');
    lemma_find_char_bounds(s, 0, ';');
    if s.len() >= 10 {
        lemma_find_char_bounds(s, 10, '"');
        lemma_find_char_bounds(s, 10, '>');
    }
    lemma_find2_bounds(s, 0, '*', '/');
    if s.len() > 0 {
        lemma_typedef_end_bounds(s, 0, 0);
    }
    match next_token_spec(s) {
        Some(t) => {
            assert(t.span == s.take(t.span.len() as int)) by {
                if ws_run_from(s, 0) > 0 {
                } else if starts_with_at(s, 0, "/*"@) || starts_with_at(s, 0, "//"@) {
                    assert(s =~= s.take(s.len() as int));
                } else if starts_with_at(s, 0, "#endif"@) {
                    assert(s =~= s.take(s.len() as int));
                } else if starts_with_at(s, 0, "#include \""@) {
                } else if starts_with_at(s, 0, "#include <"@) {
                } else if starts_with_at(s, 0, "#define "@) {
                    assert(s =~= s.take(s.len() as int));
                } else if prepr_if_applies(s) {
                    assert(s =~= s.take(s.len() as int));
                } else if starts_with_at(s, 0, "#else"@) {
                    assert(s =~= s.take(s.len() as int));
                } else {
                }
            }
            assert(1 <= t.span.len() <= s.len()) by {
                if ws_run_from(s, 0) > 0 {
                } else if starts_with_at(s, 0, "/*"@) || starts_with_at(s, 0, "//"@) {
                    if starts_with_at(s, 0, "/*"@) {
                        lemma_starts_with_first(s, "/*"@);
                    } else {
                        lemma_starts_with_first(s, "//"@);
                    }
                    assert(s[0] == '/');
                } else if starts_with_at(s, 0, "#endif"@) {
                    lemma_starts_with_first(s, "#endif"@);
                    assert(s[0] == '#');
                } else if starts_with_at(s, 0, "#include \""@) {
                } else if starts_with_at(s, 0, "#include <"@) {
                } else if starts_with_at(s, 0, "#define "@) {
                    lemma_starts_with_first(s, "#define "@);
                    assert(s[0] == '#');
                } else if prepr_if_applies(s) {
                    if starts_with_at(s, 0, "#if "@) {
                        lemma_starts_with_first(s, "#if "@);
                    } else if starts_with_at(s, 0, "#ifdef "@) {
                        lemma_starts_with_first(s, "#ifdef "@);
                    } else {
                        lemma_starts_with_first(s, "#ifndef "@);
                    }
                    assert(s[0] == '#');
                } else if starts_with_at(s, 0, "#else"@) {
                    lemma_starts_with_first(s, "#else"@);
                    assert(s[0] == '#');
                } else {
                }
            }
        },
        None => {},
    }
}

pub proof fn lemma_find2_bounds(s: Seq<char>, i: int, a: char, b: char)
    requires
        0 <= i,
    ensures
        match find2_from(s, i, a, b) {
            Some(j) => i <= j && j + 2 <= s.len(),
            None => true,
        },
    decreases s.len() - i,
{
    if 0 <= i && i + 2 <= s.len() && !(s[i] == a && s[i + 1] == b) {
        lemma_find2_bounds(s, i + 1, a, b);
    }
}

fn mk_token(tt: TokenType, s: &[char], id_from: usize, id_to: usize, span_len: usize) -> (t: Token)
    requires
        id_from <= id_to <= s@.len(),
        span_len <= s@.len(),
    ensures
        t@.tt == tt,
        t@.id == s@.subrange(id_from as int, id_to as int),
        t@.span == s@.take(span_len as int),
{
    Token { tt, id: clone_chars(&s[id_from..id_to]), span: clone_chars(&s[0..span_len]) }
}

/// Length of `line_span(s@)`.
fn exec_line_len(s: &[char]) -> (n: usize)
    ensures
        line_span(s@) == s@.take(n as int),
        n <= s@.len(),
{
    match exec_find_char_from(s, 0, '\n') {
        Some(j) => j,
        None => {
            let n = s.len();
            proof {
                assert(s@ =~= s@.take(n as int));
            }
            n
        },
    }
}

impl Token {
    /// Produces the next token of the remaining text, or `None` on a grammar
    /// error (no recognizer matches, an unterminated include, or a define
    /// without a name).
    pub fn next(s: &[char]) -> (r: Option<Token>)
        ensures
            match next_token_spec(s@) {
                Some(m) => r matches Some(t) && t@ == m,
                None => r is None,
            },
    {
        let n = s.len();
        let w = exec_ws_run_from(s, 0);
        if w > 0 {
            return Some(mk_token(TokenType::Whitespace, s, 0, 0, w));
        }
        let lit_bc = str_to_chars("/*");
        let lit_lc = str_to_chars("//");
        if exec_starts_with_at(s, 0, lit_bc.as_slice()) {
            let span_len = match exec_find2_from(s, 0, '*', '/') {
                Some(j) => j + 2,
                None => n,
            };
            let t = mk_token(TokenType::Comment, s, 0, 0, span_len);
            proof {
                assert(s@ =~= s@.take(s@.len() as int));
                assert(t@ =~= tok_comment(s@));
            }
            return Some(t);
        }
        if exec_starts_with_at(s, 0, lit_lc.as_slice()) {
            let span_len = exec_line_len(s);
            let t = mk_token(TokenType::Comment, s, 0, 0, span_len);
            proof {
                assert(t@ =~= tok_comment(s@));
            }
            return Some(t);
        }
        let lit_endif = str_to_chars("#endif");
        if exec_starts_with_at(s, 0, lit_endif.as_slice()) {
            let span_len = exec_line_len(s);
            let t = mk_token(TokenType::PreprEndif, s, 0, 0, span_len);
            proof {
                assert(t@ =~= tok_prepr_endif(s@));
            }
            return Some(t);
        }
        let lit_incq = str_to_chars("#include \"");
        if exec_starts_with_at(s, 0, lit_incq.as_slice()) {
            proof {
                reveal_strlit("#include \"");
            }
            return match exec_find_char_from(s, 10, '"') {
                Some(j) => {
                    let t = mk_token(TokenType::PreprInclude, s, 10, j, j + 1);
                    proof {
                        assert(Some(t@) =~= tok_include(s@, '"'));
                    }
                    Some(t)
                },
                None => None,
            };
        }
        let lit_inca = str_to_chars("#include <");
        if exec_starts_with_at(s, 0, lit_inca.as_slice()) {
            proof {
                reveal_strlit("#include <");
            }
            return match exec_find_char_from(s, 10, '>') {
                Some(j) => {
                    let t = mk_token(TokenType::PreprInclude, s, 10, j, j + 1);
                    proof {
                        assert(Some(t@) =~= tok_include(s@, '>'));
                    }
                    Some(t)
                },
                None => None,
            };
        }
        let lit_def = str_to_chars("#define ");
        if exec_starts_with_at(s, 0, lit_def.as_slice()) {
            proof {
                reveal_strlit("#define ");
            }
            let span_len = exec_line_len(s);
            if span_len < 8 {
                return None;
            }
            let sp = &s[0..span_len];
            let a = 8 + exec_ws_run_from(sp, 8);
            let k = exec_nonws_run_from(sp, a);
            if k == 0 {
                return None;
            }
            let mut tt = TokenType::PreprDefine;
            if n > 8 {
                if s[8] == '_' {
                    tt = TokenType::PrivateToken;
                }
            }
            let t = mk_token(tt, s, a, a + k, span_len);
            proof {
                assert(s@.take(span_len as int).subrange(a as int, (a + k) as int) =~= s@.subrange(
                    a as int,
                    (a + k) as int,
                ));
                assert(Some(t@) =~= tok_define(s@));
            }
            return Some(t);
        }
        let lit_if = str_to_chars("#if ");
        let lit_ifdef = str_to_chars("#ifdef ");
        let lit_ifndef = str_to_chars("#ifndef ");
        if exec_starts_with_at(s, 0, lit_if.as_slice()) || exec_starts_with_at(
            s,
            0,
            lit_ifdef.as_slice(),
        ) || exec_starts_with_at(s, 0, lit_ifndef.as_slice()) {
            let span_len = exec_line_len(s);
            let t = mk_token(TokenType::PreprIf, s, 0, span_len, span_len);
            proof {
                assert(t@ =~= tok_prepr_if(s@));
            }
            return Some(t);
        }
        let lit_else = str_to_chars("#else");
        if exec_starts_with_at(s, 0, lit_else.as_slice()) {
            let span_len = exec_line_len(s);
            let t = mk_token(TokenType::PreprElse, s, 0, 0, span_len);
            proof {
                assert(t@ =~= tok_prepr_else(s@));
            }
            return Some(t);
        }
        let lit_typedef = str_to_chars("typedef");
        if exec_starts_with_at(s, 0, lit_typedef.as_slice()) {
            proof {
                reveal_strlit("typedef");
                lemma_typedef_end_bounds(s@, 0, 0);
            }
            let e = exec_typedef_end(s);
            let sp = &s[0..e];
            let r = exec_word_run_back(sp, e - 1);
            let mut tt = TokenType::Typedef;
            if r > 0 {
                if s[e - 1 - r] == '_' {
                    tt = TokenType::PrivateToken;
                }
            }
            let t = mk_token(tt, s, e - 1 - r, e - 1, e);
            proof {
                assert(s@.take(e as int).subrange((e - 1 - r) as int, (e - 1) as int)
                    =~= s@.subrange((e - 1 - r) as int, (e - 1) as int));
                assert(t@ =~= tok_typedef(s@));
            }
            return Some(t);
        }
        let lit_const = str_to_chars("const");
        if let Some(j) = exec_find_char_from(s, 0, ';') {
            if exec_contains_in(s, 0, j + 1, lit_const.as_slice()) {
                let sp = &s[0..j + 1];
                let r = exec_word_run_back(sp, j);
                let t = mk_token(TokenType::Const, s, j - r, j, j + 1);
                proof {
                    assert(s@.take((j + 1) as int).subrange((j - r) as int, j as int)
                        =~= s@.subrange((j - r) as int, j as int));
                    assert(t@ =~= tok_const(s@));
                }
                return Some(t);
            }
            let li_opt = exec_rfind_char(&s[0..j + 1], j + 1, '(');
            if let Some(li) = li_opt {
                let sp = &s[0..j + 1];
                let r = exec_word_run_back(sp, li);
                let t = mk_token(TokenType::Function, s, li - r, li, j + 1);
                proof {
                    assert(s@.take((j + 1) as int).subrange((li - r) as int, li as int)
                        =~= s@.subrange((li - r) as int, li as int));
                    assert(t@ =~= tok_function(s@));
                }
                return Some(t);
            }
            return None;
        }
        None
    }
}

fn exec_typedef_end(s: &[char]) -> (e: usize)
    ensures
        e == typedef_end(s@, 0, 0),
        e <= s@.len(),
{
    let n = s.len();
    let mut i: usize = 0;
    let mut depth: i128 = 0;
    while i < n
        invariant
            i <= n,
            n == s@.len(),
            -(i as int) <= depth as int <= i as int,
            typedef_end(s@, 0, 0) == typedef_end(s@, i as int, depth as int),
        decreases n - i,
    {
        let c = s[i];
        if c == '{' {
            depth = depth + 1;
        } else if c == '}' {
            depth = depth - 1;
        } else if c == ';' && depth == 0 {
            return i + 1;
        }
        i += 1;
    }
    n
}


/// The mathematical value of a token list.
pub open spec fn tokens_view(v: Seq<Token>) -> Seq<TokenModel> {
    v.map_values(|t: Token| t@)
}

/// A grammar error: no recognizer matched the text at `offset`.
#[derive(Debug)]
pub struct GrammarError {
    pub offset: usize,
}

/// The token sequence of `s`, or the offset at which tokenization gets
/// stuck. A single forward pass: each token is cut from the front and the
/// rest is tokenized after it.
pub open spec fn tokenize_spec(s: Seq<char>) -> Result<Seq<TokenModel>, int>
    decreases s.len(),
{
    if s.len() == 0 {
        Ok(Seq::empty())
    } else {
        match next_token_spec(s) {
            None => Err(0),
            Some(t) => {
                let n = t.span.len() as int;
                if 1 <= n <= s.len() {
                    match tokenize_spec(s.skip(n)) {
                        Ok(rest) => Ok(seq![t] + rest),
                        Err(k) => Err(n + k),
                    }
                } else {
                    Err(0)
                }
            },
        }
    }
}

/// Tokenizes the whole text, or reports the offset of the first character
/// no recognizer accepts.
pub fn tokenize(text: &[char]) -> (r: Result<Vec<Token>, GrammarError>)
    ensures
        match r {
            Ok(toks) => tokenize_spec(text@) == Ok::<Seq<TokenModel>, int>(tokens_view(toks@)),
            Err(e) => tokenize_spec(text@) == Err::<Seq<TokenModel>, int>(e.offset as int),
        },
{
    let mut toks: Vec<Token> = Vec::new();
    let mut i: usize = 0;
    proof {
        assert(text@.skip(0) =~= text@);
        assert(tokens_view(toks@) =~= Seq::<TokenModel>::empty());
    }
    while i < text.len()
        invariant
            i <= text@.len(),
            tokenize_spec(text@.skip(i as int)) matches Ok(rest) ==> tokenize_spec(text@)
                == Ok::<Seq<TokenModel>, int>(tokens_view(toks@) + rest),
            tokenize_spec(text@.skip(i as int)) matches Err(k) ==> tokenize_spec(text@)
                == Err::<Seq<TokenModel>, int>(i + k),
        decreases text@.len() - i,
    {
        let rest = &text[i..text.len()];
        proof {
            assert(rest@ =~= text@.skip(i as int));
            lemma_next_token_span(rest@);
        }
        match Token::next(rest) {
            None => {
                return Err(GrammarError { offset: i });
            },
            Some(t) => {
                let n = t.span.len();
                let ghost prev = toks@;
                let ghost tm = t@;
                toks.push(t);
                proof {
                    assert(tokens_view(toks@) =~= tokens_view(prev) + seq![tm]);
                    assert(text@.skip(i as int).skip(n as int) =~= text@.skip(i + n));
                    assert(seq![tm] + tokenize_spec(text@.skip(i + n))->Ok_0 =~= seq![tm]
                        + tokenize_spec(text@.skip(i + n))->Ok_0);
                    assert((prev.map_values(|t: Token| t@) + seq![tm]) + tokenize_spec(
                        text@.skip(i + n),
                    )->Ok_0 =~= prev.map_values(|t: Token| t@) + (seq![tm] + tokenize_spec(
                        text@.skip(i + n),
                    )->Ok_0));
                }
                i += n;
            },
        }
    }
    proof {
        assert(text@.skip(i as int) =~= Seq::<char>::empty());
        assert(tokens_view(toks@) + Seq::<TokenModel>::empty() =~= tokens_view(toks@));
    }
    Ok(toks)
}

/// Concatenation of the spans of a token sequence.
pub open spec fn cat_spans(ts: Seq<TokenModel>) -> Seq<char>
    decreases ts.len(),
{
    if ts.len() == 0 {
        Seq::empty()
    } else {
        ts[0].span + cat_spans(ts.drop_first())
    }
}

/// Tokenization cuts the input into spans and invents nothing: the spans of
/// the token sequence concatenate back to the input exactly.
pub proof fn lemma_tokenize_round_trip(s: Seq<char>, toks: Seq<TokenModel>)
    requires
        tokenize_spec(s) == Ok::<Seq<TokenModel>, int>(toks),
    ensures
        cat_spans(toks) == s,
    decreases s.len(),
{
    if s.len() == 0 {
        assert(cat_spans(toks) =~= s);
    } else {
        lemma_next_token_span(s);
        let t = next_token_spec(s)->Some_0;
        let n = t.span.len() as int;
        let rest = tokenize_spec(s.skip(n))->Ok_0;
        lemma_tokenize_round_trip(s.skip(n), rest);
        assert(toks =~= seq![t] + rest);
        assert((seq![t] + rest).drop_first() =~= rest);
        assert(cat_spans(toks) =~= t.span + cat_spans(rest));
        assert(cat_spans(toks) =~= s.take(n) + s.skip(n));
        assert(s.take(n) + s.skip(n) =~= s);
    }
}

} // verus!
