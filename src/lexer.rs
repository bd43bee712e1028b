use vstd::prelude::*;
use vstd::string::*;

verus! {

/// A token of the cost-model language.
#[derive(Debug)]
pub enum Token {
    /// A name: a letter or `_`, then letters, digits or `_`.
    Name(String),
    /// A capture slot or global: `$` followed by a name.
    Var(String),
    /// A run of decimal digits.
    Number(String),
    /// A double-quoted string, without the quotes.
    Str(String),
    /// One punctuation character.
    Sym(char),
    /// A two-character operator: `=>`, `==`, `!=`, `<=`, `>=`, `&&` or `||`.
    Sym2(char, char),
}

/// A token as the grammar sees it.
pub enum VToken {
    Name(Seq<char>),
    Var(Seq<char>),
    Number(Seq<char>),
    Str(Seq<char>),
    Sym(char),
    Sym2(char, char),
}

impl Token {
    pub open spec fn vt(&self) -> VToken {
        match self {
            Token::Name(s) => VToken::Name(s@),
            Token::Var(s) => VToken::Var(s@),
            Token::Number(s) => VToken::Number(s@),
            Token::Str(s) => VToken::Str(s@),
            Token::Sym(c) => VToken::Sym(*c),
            Token::Sym2(a, b) => VToken::Sym2(*a, *b),
        }
    }
}

pub open spec fn tokens_view(t: Seq<Token>) -> Seq<VToken> {
    t.map_values(|x: Token| x.vt())
}

pub open spec fn is_name_start(c: char) -> bool {
    ('a' <= c && c <= 'z') || ('A' <= c && c <= 'Z') || c == '_'
}

pub open spec fn is_digit(c: char) -> bool {
    '0' <= c && c <= '9'
}

pub open spec fn is_name_char(c: char) -> bool {
    is_name_start(c) || is_digit(c)
}

pub open spec fn is_space(c: char) -> bool {
    c == ' ' || c == '\t' || c == '\n' || c == '\r' || c == ','
}

pub open spec fn is_single_sym(c: char) -> bool {
    c == '{' || c == '}' || c == '(' || c == ')' || c == '[' || c == ']' || c == ':' || c == ';'
        || c == '!' || c == '+' || c == '-' || c == '*' || c == '/' || c == '<' || c == '>' || c == '='
        || c == '.'
}

pub open spec fn is_double_sym(a: char, b: char) -> bool {
    (a == '=' && b == '>') || (a == '=' && b == '=') || (a == '!' && b == '=') || (a == '<' && b == '=')
        || (a == '>' && b == '=') || (a == '&' && b == '&') || (a == '|' && b == '|')
}

/// The first index at or after `i` whose character is not a name character.
pub open spec fn name_run_end(s: Seq<char>, i: int) -> int
    decreases s.len() - i,
{
    if 0 <= i < s.len() && is_name_char(s[i]) {
        name_run_end(s, i + 1)
    } else {
        i
    }
}

/// The first index at or after `i` whose character is not a decimal digit.
pub open spec fn digit_run_end(s: Seq<char>, i: int) -> int
    decreases s.len() - i,
{
    if 0 <= i < s.len() && is_digit(s[i]) {
        digit_run_end(s, i + 1)
    } else {
        i
    }
}

/// The first index at or after `i` that holds `stop`, or the length.
pub open spec fn run_until(s: Seq<char>, i: int, stop: char) -> int
    decreases s.len() - i,
{
    if 0 <= i < s.len() && s[i] != stop {
        run_until(s, i + 1, stop)
    } else {
        i
    }
}

pub open spec fn prepend(t: VToken, r: Option<Seq<VToken>>) -> Option<Seq<VToken>> {
    match r {
        Some(x) => Some(seq![t] + x),
        None => None,
    }
}

pub open spec fn prepend_all(p: Seq<VToken>, r: Option<Seq<VToken>>) -> Option<Seq<VToken>> {
    match r {
        Some(x) => Some(p + x),
        None => None,
    }
}

/// The tokens of `s[i..]`: spaces, commas and comments (`#` to the end of
/// the line) separate tokens; a character that starts no token, a `$`
/// without a name, or a string without its closing quote fails.
pub open spec fn spec_tokenize_from(s: Seq<char>, i: int) -> Option<Seq<VToken>>
    decreases s.len() - i,
{
    if i < 0 || i >= s.len() {
        Some(Seq::empty())
    } else {
        let c = s[i];
        if is_space(c) {
            spec_tokenize_from(s, i + 1)
        } else if c == '#' {
            let e = run_until(s, i + 1, '\n');
            if e <= i || e > s.len() { None } else { spec_tokenize_from(s, e) }
        } else if is_name_start(c) {
            let e = name_run_end(s, i + 1);
            if e <= i || e > s.len() { None } else { prepend(VToken::Name(s.subrange(i, e)), spec_tokenize_from(s, e)) }
        } else if c == '$' {
            let e = name_run_end(s, i + 1);
            if e <= i + 1 || e > s.len() { None } else { prepend(VToken::Var(s.subrange(i + 1, e)), spec_tokenize_from(s, e)) }
        } else if is_digit(c) {
            let e = digit_run_end(s, i + 1);
            if e <= i || e > s.len() { None } else { prepend(VToken::Number(s.subrange(i, e)), spec_tokenize_from(s, e)) }
        } else if c == '"' {
            let e = run_until(s, i + 1, '"');
            if e >= s.len() || e <= i {
                None
            } else {
                prepend(VToken::Str(s.subrange(i + 1, e)), spec_tokenize_from(s, e + 1))
            }
        } else if i + 1 < s.len() && is_double_sym(c, s[i + 1]) {
            prepend(VToken::Sym2(c, s[i + 1]), spec_tokenize_from(s, i + 2))
        } else if is_single_sym(c) {
            prepend(VToken::Sym(c), spec_tokenize_from(s, i + 1))
        } else {
            None
        }
    }
}

/// The tokens of `s`, or `None` when it does not split into tokens.
pub open spec fn spec_tokenize(s: Seq<char>) -> Option<Seq<VToken>> {
    spec_tokenize_from(s, 0)
}

proof fn lemma_runs_advance(s: Seq<char>, i: int)
    requires
        0 <= i,
    ensures
        name_run_end(s, i) >= i,
        digit_run_end(s, i) >= i,
        run_until(s, i, '\n') >= i,
        run_until(s, i, '"') >= i,
        run_until(s, i, '"') < s.len() ==> s[run_until(s, i, '"')] == '"',
    decreases s.len() - i,
{
    if i < s.len() {
        lemma_runs_advance(s, i + 1);
    }
}

fn name_start(c: char) -> (r: bool)
    ensures
        r == is_name_start(c),
{
    ('a' <= c && c <= 'z') || ('A' <= c && c <= 'Z') || c == '_'
}

fn digit(c: char) -> (r: bool)
    ensures
        r == is_digit(c),
{
    '0' <= c && c <= '9'
}

fn name_char(c: char) -> (r: bool)
    ensures
        r == is_name_char(c),
{
    name_start(c) || digit(c)
}

fn name_end(src: &str, n: usize, i: usize) -> (r: usize)
    requires
        n == src@.len(),
        i <= n,
    ensures
        i <= r <= n,
        r == name_run_end(src@, i as int),
{
    let mut j = i;
    while j < n && name_char(src.get_char(j))
        invariant
            i <= j <= n,
            n == src@.len(),
            name_run_end(src@, j as int) == name_run_end(src@, i as int),
        decreases n - j,
    {
        j = j + 1;
    }
    j
}

fn digit_end(src: &str, n: usize, i: usize) -> (r: usize)
    requires
        n == src@.len(),
        i <= n,
    ensures
        i <= r <= n,
        r == digit_run_end(src@, i as int),
{
    let mut j = i;
    while j < n && digit(src.get_char(j))
        invariant
            i <= j <= n,
            n == src@.len(),
            digit_run_end(src@, j as int) == digit_run_end(src@, i as int),
        decreases n - j,
    {
        j = j + 1;
    }
    j
}

fn until(src: &str, n: usize, i: usize, stop: char) -> (r: usize)
    requires
        n == src@.len(),
        i <= n,
    ensures
        i <= r <= n,
        r == run_until(src@, i as int, stop),
{
    let mut j = i;
    while j < n && src.get_char(j) != stop
        invariant
            i <= j <= n,
            n == src@.len(),
            run_until(src@, j as int, stop) == run_until(src@, i as int, stop),
        decreases n - j,
    {
        j = j + 1;
    }
    j
}

proof fn lemma_push_token(toks: Seq<Token>, t: Token, r: Option<Seq<VToken>>)
    ensures
        prepend_all(tokens_view(toks), prepend(t.vt(), r)) == prepend_all(tokens_view(toks.push(t)), r),
{
    assert(tokens_view(toks.push(t)) =~= tokens_view(toks) + seq![t.vt()]);
    if let Some(x) = r {
        assert(tokens_view(toks) + (seq![t.vt()] + x) =~= tokens_view(toks.push(t)) + x);
    }
}

/// Splits cost-model source into tokens, as `spec_tokenize` says.
pub(crate) fn tokenize(src: &str) -> (r: Result<Vec<Token>, ()>)
    ensures
        match r {
            Ok(t) => spec_tokenize(src@) == Some(tokens_view(t@)),
            Err(_) => spec_tokenize(src@) is None,
        },
{
    let n = src.unicode_len();
    let mut toks: Vec<Token> = Vec::new();
    let mut i: usize = 0;
    proof {
        assert(tokens_view(toks@) =~= Seq::<VToken>::empty());
        if let Some(x) = spec_tokenize_from(src@, 0) {
            assert(Seq::<VToken>::empty() + x =~= x);
        }
    }
    while i < n
        invariant
            n == src@.len(),
            i <= n,
            spec_tokenize(src@) == prepend_all(tokens_view(toks@), spec_tokenize_from(src@, i as int)),
        decreases n - i,
    {
        proof {
            lemma_runs_advance(src@, i + 1);
        }
        let c = src.get_char(i);
        if c == ' ' || c == '\t' || c == '\n' || c == '\r' || c == ',' {
            i = i + 1;
        } else if c == '#' {
            i = until(src, n, i + 1, '\n');
        } else if name_start(c) {
            let e = name_end(src, n, i + 1);
            let t = Token::Name(src.substring_char(i, e).to_owned());
            proof { lemma_push_token(toks@, t, spec_tokenize_from(src@, e as int)); }
            toks.push(t);
            i = e;
        } else if c == '$' {
            let e = name_end(src, n, i + 1);
            if e == i + 1 {
                return Err(());
            }
            let t = Token::Var(src.substring_char(i + 1, e).to_owned());
            proof { lemma_push_token(toks@, t, spec_tokenize_from(src@, e as int)); }
            toks.push(t);
            i = e;
        } else if digit(c) {
            let e = digit_end(src, n, i + 1);
            let t = Token::Number(src.substring_char(i, e).to_owned());
            proof { lemma_push_token(toks@, t, spec_tokenize_from(src@, e as int)); }
            toks.push(t);
            i = e;
        } else if c == '"' {
            let e = until(src, n, i + 1, '"');
            if e >= n {
                return Err(());
            }
            let t = Token::Str(src.substring_char(i + 1, e).to_owned());
            proof { lemma_push_token(toks@, t, spec_tokenize_from(src@, e + 1)); }
            toks.push(t);
            i = e + 1;
        } else {
            let two = i + 1 < n && {
                let d = src.get_char(i + 1);
                (c == '=' && d == '>') || (c == '=' && d == '=') || (c == '!' && d == '=') || (c == '<'
                    && d == '=') || (c == '>' && d == '=') || (c == '&' && d == '&') || (c == '|' && d
                    == '|')
            };
            if two {
                let t = Token::Sym2(c, src.get_char(i + 1));
                proof { lemma_push_token(toks@, t, spec_tokenize_from(src@, i + 2)); }
                toks.push(t);
                i = i + 2;
            } else if c == '{' || c == '}' || c == '(' || c == ')' || c == '[' || c == ']' || c == ':'
                || c == ';' || c == '!' || c == '+' || c == '-' || c == '*' || c == '/' || c == '<' || c
                == '>' || c == '=' || c == '.' {
                let t = Token::Sym(c);
                proof { lemma_push_token(toks@, t, spec_tokenize_from(src@, i + 1)); }
                toks.push(t);
                i = i + 1;
            } else {
                return Err(());
            }
        }
    }
    proof {
        assert(tokens_view(toks@) + Seq::<VToken>::empty() =~= tokens_view(toks@));
    }
    Ok(toks)
}

} // verus!
