//! Templates: literal text with `${{ expression }}` holes.
use vstd::prelude::*;
use crate::text::{chars_of, string_from, trimmed_string, trim, is_ws, trim_start, trim_end};

verus! {

/// One piece of a template.
#[derive(Debug, Clone, PartialEq, Eq)]
pub enum Token {
    /// Text copied as it is.
    Lit(String),
    /// An expression to evaluate, without the delimiters and trimmed.
    Expr(String),
}

/// A parsed template.
#[derive(Debug, Clone, PartialEq, Eq)]
pub struct Template {
    pub tokens: Vec<Token>,
}

/// The template has an opening delimiter without a closing one.
#[derive(Debug, Clone, Copy, PartialEq, Eq)]
pub struct TemplateError {
    /// Character position just after the unclosed opening delimiter.
    pub open_end: usize,
}

/// Abstract token: the characters of a literal or of an expression.
pub enum TokenView {
    Lit(Seq<char>),
    Expr(Seq<char>),
}

impl View for Token {
    type V = TokenView;

    open spec fn view(&self) -> TokenView {
        match self {
            Token::Lit(s) => TokenView::Lit(s@),
            Token::Expr(s) => TokenView::Expr(s@),
        }
    }
}

impl View for Template {
    type V = Seq<TokenView>;

    open spec fn view(&self) -> Seq<TokenView> {
        self.tokens@.map_values(|t: Token| t@)
    }
}

/// The opening delimiter `${{` starts at `k`.
pub open spec fn open_at(s: Seq<char>, k: int) -> bool {
    0 <= k && k + 3 <= s.len() && s[k] == '$' && s[k + 1] == '{' && s[k + 2] == '{'
}

/// The closing delimiter `}}` starts at `k`.
pub open spec fn close_at(s: Seq<char>, k: int) -> bool {
    0 <= k && k + 2 <= s.len() && s[k] == '}' && s[k + 1] == '}'
}

/// First opening delimiter at or after `i`.
pub open spec fn find_open(s: Seq<char>, i: int) -> Option<int>
    decreases s.len() - i,
{
    if i < 0 || i + 3 > s.len() {
        None
    } else if open_at(s, i) {
        Some(i)
    } else {
        find_open(s, i + 1)
    }
}

/// First closing delimiter at or after `i`.
pub open spec fn find_close(s: Seq<char>, i: int) -> Option<int>
    decreases s.len() - i,
{
    if i < 0 || i + 2 > s.len() {
        None
    } else if close_at(s, i) {
        Some(i)
    } else {
        find_close(s, i + 1)
    }
}

pub proof fn lemma_find_open(s: Seq<char>, i: int)
    requires
        0 <= i,
    ensures
        find_open(s, i) matches Some(k) ==> i <= k && open_at(s, k),
        find_open(s, i) is None ==> forall|k: int| i <= k ==> !open_at(s, k),
    decreases s.len() - i,
{
    if !(i < 0 || i + 3 > s.len()) && !open_at(s, i) {
        lemma_find_open(s, i + 1);
        assert forall|k: int| i <= k && find_open(s, i) is None implies !open_at(s, k) by {
            if k > i {
            }
        }
    }
}

pub proof fn lemma_find_close(s: Seq<char>, i: int)
    ensures
        find_close(s, i) matches Some(k) ==> i <= k && close_at(s, k),
    decreases s.len() - i,
{
    if !(i < 0 || i + 2 > s.len()) && !close_at(s, i) {
        lemma_find_close(s, i + 1);
    }
}

/// The literal before position `k`, if it is not empty.
pub open spec fn lit_between(s: Seq<char>, i: int, k: int) -> Seq<TokenView> {
    if k > i {
        seq![TokenView::Lit(s.subrange(i, k))]
    } else {
        Seq::empty()
    }
}

/// Tokens of `s` from position `i` on, or `None` where an opening delimiter
/// is not closed.
pub open spec fn parse_from(s: Seq<char>, i: int) -> Option<Seq<TokenView>>
    decreases s.len() - i,
{
    if i < 0 || i > s.len() {
        None
    } else {
        match find_open(s, i) {
            Some(k) => {
                proof {
                    lemma_find_open(s, i);
                    lemma_find_close(s, k + 3);
                }
                match find_close(s, k + 3) {
                    Some(c) => match parse_from(s, c + 2) {
                        Some(rest) => Some(
                            lit_between(s, i, k) + seq![TokenView::Expr(trim(s.subrange(k + 3, c)))]
                                + rest,
                        ),
                        None => None,
                    },
                    None => None,
                }
            },
            None => Some(lit_between(s, i, s.len() as int)),
        }
    }
}

/// Tokens of the whole template text.
pub open spec fn parse_spec(s: Seq<char>) -> Option<Seq<TokenView>> {
    parse_from(s, 0)
}

pub open spec fn prepend(p: Seq<TokenView>, o: Option<Seq<TokenView>>) -> Option<Seq<TokenView>> {
    match o {
        Some(rest) => Some(p + rest),
        None => None,
    }
}


/// Literal tokens are never empty, a literal is always followed by an
/// expression, and expressions carry no surrounding whitespace.
pub open spec fn well_shaped(ts: Seq<TokenView>) -> bool {
    &&& forall|k: int| 0 <= k < ts.len() ==> match #[trigger] ts[k] {
        TokenView::Lit(l) => l.len() > 0 && (k + 1 < ts.len() ==> ts[k + 1] is Expr),
        TokenView::Expr(e) => e.len() > 0 ==> !is_ws(e[0]) && !is_ws(e.last()),
    }
}

proof fn lemma_trim_start_shape(s: Seq<char>)
    ensures
        trim_start(s).len() > 0 ==> !is_ws(trim_start(s)[0]),
    decreases s.len(),
{
    if s.len() > 0 && is_ws(s[0]) {
        lemma_trim_start_shape(s.drop_first());
    }
}

proof fn lemma_trim_end_prefix(s: Seq<char>)
    ensures
        trim_end(s).len() <= s.len(),
        trim_end(s) == s.subrange(0, trim_end(s).len() as int),
        trim_end(s).len() > 0 ==> !is_ws(trim_end(s).last()),
    decreases s.len(),
{
    if s.len() > 0 && is_ws(s.last()) {
        lemma_trim_end_prefix(s.drop_last());
        assert(s.drop_last().subrange(0, trim_end(s).len() as int) =~= s.subrange(0, trim_end(s).len() as int));
    } else {
        assert(s.subrange(0, s.len() as int) =~= s);
    }
}

/// Lemma: a trimmed text starts and ends with a non-whitespace character.
pub proof fn lemma_trim_shape(s: Seq<char>)
    ensures
        trim(s).len() > 0 ==> !is_ws(trim(s)[0]) && !is_ws(trim(s).last()),
{
    lemma_trim_start_shape(s);
    lemma_trim_end_prefix(trim_start(s));
    let t = trim(s);
    if t.len() > 0 {
        assert(t[0] == trim_start(s)[0]);
    }
}

proof fn lemma_parse_from_shape(s: Seq<char>, i: int)
    ensures
        parse_from(s, i) matches Some(ts) ==> well_shaped(ts),
    decreases s.len() - i,
{
    if 0 <= i <= s.len() {
        lemma_find_open(s, i);
        match find_open(s, i) {
            Some(k) => {
                lemma_find_close(s, k + 3);
                match find_close(s, k + 3) {
                    Some(c) => {
                        lemma_parse_from_shape(s, c + 2);
                        match parse_from(s, c + 2) {
                            Some(rest) => {
                                let e = trim(s.subrange(k + 3, c));
                                lemma_trim_shape(s.subrange(k + 3, c));
                                let head = lit_between(s, i, k) + seq![TokenView::Expr(e)];
                                let ts = head + rest;
                                assert forall|j: int| 0 <= j < ts.len() implies match #[trigger] ts[j] {
                                    TokenView::Lit(l) => l.len() > 0 && (j + 1 < ts.len() ==> ts[j + 1] is Expr),
                                    TokenView::Expr(x) => x.len() > 0 ==> !is_ws(x[0]) && !is_ws(x.last()),
                                } by {
                                    if j >= head.len() {
                                        assert(ts[j] == rest[j - head.len()]);
                                        if j + 1 < ts.len() {
                                            assert(ts[j + 1] == rest[j + 1 - head.len()]);
                                        }
                                    }
                                }
                            },
                            None => {},
                        }
                    },
                    None => {},
                }
            },
            None => {},
        }
    }
}

/// Law: the tokens of a parsed template are well shaped: literals are never
/// empty, two literals are never adjacent, and every expression is trimmed.
pub proof fn law_parse_well_shaped(s: Seq<char>)
    ensures
        parse_spec(s) matches Some(ts) ==> well_shaped(ts),
{
    lemma_parse_from_shape(s, 0);
}

/// The text of a token: a literal as it is, an expression between the
/// delimiters.
pub open spec fn piece(t: TokenView) -> Seq<char> {
    match t {
        TokenView::Lit(l) => l,
        TokenView::Expr(e) => seq!['$', '{', '{'] + e + seq!['}', '}'],
    }
}

/// The text of tokens, one after the other.
pub open spec fn printed(ts: Seq<TokenView>) -> Seq<char>
    decreases ts.len(),
{
    if ts.len() == 0 {
        Seq::empty()
    } else {
        piece(ts[0]) + printed(ts.drop_first())
    }
}

/// Tokens that a template text can hold: well shaped, no literal holds an
/// opening delimiter, and no expression holds a closing one or ends in `}`.
pub open spec fn printable(ts: Seq<TokenView>) -> bool {
    &&& well_shaped(ts)
    &&& forall|k: int| 0 <= k < ts.len() ==> match #[trigger] ts[k] {
        TokenView::Lit(l) => forall|j: int| !open_at(l, j),
        TokenView::Expr(e) => (forall|j: int| !close_at(e, j)) && (e.len() > 0 ==> e.last() != '}'),
    }
}

proof fn lemma_find_open_at(s: Seq<char>, i: int, k: int)
    requires
        0 <= i <= k,
        open_at(s, k),
        forall|m: int| i <= m < k ==> !open_at(s, m),
    ensures
        find_open(s, i) == Some(k),
    decreases k - i,
{
    if i < k {
        lemma_find_open_at(s, i + 1, k);
    }
}

proof fn lemma_find_close_at(s: Seq<char>, i: int, c: int)
    requires
        0 <= i <= c,
        close_at(s, c),
        forall|m: int| i <= m < c ==> !close_at(s, m),
    ensures
        find_close(s, i) == Some(c),
    decreases c - i,
{
    if i < c {
        lemma_find_close_at(s, i + 1, c);
    }
}

proof fn lemma_find_open_none_after(s: Seq<char>, i: int)
    requires
        0 <= i,
        forall|m: int| i <= m ==> !open_at(s, m),
    ensures
        find_open(s, i) is None,
    decreases s.len() - i,
{
    if i + 3 <= s.len() {
        lemma_find_open_none_after(s, i + 1);
    }
}

proof fn lemma_printable_skip(ts: Seq<TokenView>, n: int)
    requires
        printable(ts),
        0 <= n <= ts.len(),
    ensures
        printable(ts.skip(n)),
{
    let r = ts.skip(n);
    assert forall|k: int| 0 <= k < r.len() implies match #[trigger] r[k] {
        TokenView::Lit(l) => l.len() > 0 && (k + 1 < r.len() ==> r[k + 1] is Expr),
        TokenView::Expr(e) => e.len() > 0 ==> !is_ws(e[0]) && !is_ws(e.last()),
    } by {
        assert(r[k] == ts[k + n]);
        if k + 1 < r.len() {
            assert(r[k + 1] == ts[k + n + 1]);
        }
    }
    assert forall|k: int| 0 <= k < r.len() implies match #[trigger] r[k] {
        TokenView::Lit(l) => forall|j: int| !open_at(l, j),
        TokenView::Expr(e) => (forall|j: int| !close_at(e, j)) && (e.len() > 0 ==> e.last() != '}'),
    } by {
        assert(r[k] == ts[k + n]);
    }
}

proof fn lemma_trim_plain(e: Seq<char>)
    requires
        e.len() > 0 ==> !is_ws(e[0]) && !is_ws(e.last()),
    ensures
        trim(e) == e,
{
}

/// The printed tokens, split at the first expression: the literal before
/// it (if any), the delimited expression, and the rest.
proof fn lemma_printed_split(ts: Seq<TokenView>, q: int, lit: Seq<char>, e: Seq<char>)
    requires
        q == 0 || q == 1,
        q < ts.len(),
        q == 1 ==> ts[0] == TokenView::Lit(lit),
        q == 0 ==> lit.len() == 0,
        ts[q] == TokenView::Expr(e),
    ensures
        printed(ts) == lit + (seq!['$', '{', '{'] + e + seq!['}', '}']) + printed(ts.skip(q + 1)),
{
    let x = seq!['$', '{', '{'] + e + seq!['}', '}'];
    if q == 1 {
        let d = ts.drop_first();
        assert(d[0] == ts[1]);
        assert(d.drop_first() =~= ts.skip(2));
        assert(printed(d) == x + printed(ts.skip(2)));
        assert(printed(ts) == lit + printed(d));
        assert(lit + (x + printed(ts.skip(2))) =~= lit + x + printed(ts.skip(2)));
    } else {
        assert(ts.drop_first() =~= ts.skip(1));
        assert(lit =~= Seq::<char>::empty());
        assert(lit + x + printed(ts.skip(1)) =~= x + printed(ts.skip(1)));
    }
}

/// Where the text from `i` on is a literal, a delimited expression and a
/// tail, the pieces sit where they should.
proof fn lemma_text_layout(s: Seq<char>, i: int, lit: Seq<char>, e: Seq<char>, tail: Seq<char>)
    requires
        0 <= i <= s.len(),
        s.subrange(i, s.len() as int) == lit + (seq!['$', '{', '{'] + e + seq!['}', '}']) + tail,
    ensures
        ({
            let a = i + lit.len();
            let c = a + 3 + e.len();
            &&& c + 2 + tail.len() == s.len()
            &&& open_at(s, a)
            &&& close_at(s, c)
            &&& s.subrange(i, a) == lit
            &&& s.subrange(a + 3, c) == e
            &&& s.subrange(c + 2, s.len() as int) == tail
        }),
{
    let p = lit + (seq!['$', '{', '{'] + e + seq!['}', '}']) + tail;
    let ln: int = lit.len() as int;
    let el: int = e.len() as int;
    let a = i + ln;
    let c = a + 3 + el;
    assert forall|t: int| 0 <= t < p.len() implies s[i + t] == #[trigger] p[t] by {
        assert(s.subrange(i, s.len() as int)[t] == s[i + t]);
    }
    assert(p[ln] == '$' && p[ln + 1] == '{' && p[ln + 2] == '{');
    assert(p[ln + 3 + el] == '}' && p[ln + 4 + el] == '}');
    assert(s[a] == p[ln] && s[a + 1] == p[ln + 1] && s[a + 2] == p[ln + 2]);
    assert(s[c] == p[ln + 3 + el] && s[c + 1] == p[ln + 4 + el]);
    assert forall|t: int| 0 <= t < ln implies s.subrange(i, a)[t] == lit[t] by {
        assert(s[i + t] == p[t]);
    }
    assert(s.subrange(i, a) =~= lit);
    assert forall|t: int| 0 <= t < el implies s.subrange(a + 3, c)[t] == e[t] by {
        assert(s[i + ln + 3 + t] == p[ln + 3 + t]);
    }
    assert(s.subrange(a + 3, c) =~= e);
    assert forall|t: int| 0 <= t < tail.len() implies s.subrange(c + 2, s.len() as int)[t] == tail[t] by {
        assert(s[i + ln + 5 + el + t] == p[ln + 5 + el + t]);
    }
    assert(s.subrange(c + 2, s.len() as int) =~= tail);
}

/// No opening delimiter starts within a literal that is followed by one.
proof fn lemma_no_open_in_lit(s: Seq<char>, i: int, lit: Seq<char>)
    requires
        0 <= i,
        i + lit.len() <= s.len(),
        s.subrange(i, i + lit.len()) == lit,
        forall|j: int| !open_at(lit, j),
        open_at(s, i + lit.len()),
    ensures
        forall|m: int| i <= m < i + lit.len() ==> !open_at(s, m),
{
    let a = i + lit.len();
    assert forall|m: int| i <= m < a implies !open_at(s, m) by {
        if open_at(s, m) && m + 3 <= a {
            assert(s.subrange(i, a)[m - i] == s[m]);
            assert(s.subrange(i, a)[m - i + 1] == s[m + 1]);
            assert(s.subrange(i, a)[m - i + 2] == s[m + 2]);
            assert(open_at(lit, m - i));
        }
    }
}

/// No closing delimiter starts within an expression that is followed by one.
proof fn lemma_no_close_in_expr(s: Seq<char>, b: int, e: Seq<char>)
    requires
        0 <= b,
        b + e.len() + 2 <= s.len(),
        s.subrange(b, b + e.len()) == e,
        forall|j: int| !close_at(e, j),
        e.len() > 0 ==> e.last() != '}',
    ensures
        forall|m: int| b <= m < b + e.len() ==> !close_at(s, m),
{
    let c = b + e.len();
    assert forall|m: int| b <= m < c implies !close_at(s, m) by {
        if close_at(s, m) {
            assert(s.subrange(b, c)[m - b] == s[m]);
            if m + 2 <= c {
                assert(s.subrange(b, c)[m - b + 1] == s[m + 1]);
                assert(close_at(e, m - b));
            } else {
                assert(e.last() == e[m - b]);
            }
        }
    }
}

/// The tokens parsed from position `i` on are `ts` where the text from
/// there is the printed `ts`.
proof fn lemma_parse_printed(s: Seq<char>, i: int, ts: Seq<TokenView>)
    requires
        0 <= i <= s.len(),
        s.subrange(i, s.len() as int) == printed(ts),
        printable(ts),
    ensures
        parse_from(s, i) == Some(ts),
    decreases ts.len(),
{
    if ts.len() == 0 {
        assert(s.subrange(i, s.len() as int).len() == 0);
        assert(lit_between(s, i, s.len() as int) =~= Seq::<TokenView>::empty());
        assert(ts =~= Seq::<TokenView>::empty());
    } else if ts[0] is Lit && ts.len() == 1 {
        let lit = ts[0]->Lit_0;
        assert(printed(ts.drop_first()) =~= Seq::<char>::empty());
        assert(printed(ts) =~= lit);
        assert forall|m: int| i <= m implies !open_at(s, m) by {
            if open_at(s, m) {
                assert(s.subrange(i, s.len() as int)[m - i] == s[m]);
                assert(s.subrange(i, s.len() as int)[m - i + 1] == s[m + 1]);
                assert(s.subrange(i, s.len() as int)[m - i + 2] == s[m + 2]);
                assert(open_at(lit, m - i));
            }
        }
        lemma_find_open_none_after(s, i);
        assert(ts =~= seq![TokenView::Lit(lit)]);
    } else {
        let q: int = if ts[0] is Lit { 1 } else { 0 };
        let lit = if ts[0] is Lit { ts[0]->Lit_0 } else { Seq::<char>::empty() };
        assert(ts[q] is Expr);
        let e = ts[q]->Expr_0;
        let rest = ts.skip(q + 1);
        lemma_printed_split(ts, q, lit, e);
        lemma_text_layout(s, i, lit, e, printed(rest));
        let a = i + lit.len();
        let c = a + 3 + e.len();
        assert(forall|j: int| !open_at(lit, j)) by {
            if q == 1 {
                assert(ts[0] is Lit);
            }
        }
        lemma_no_open_in_lit(s, i, lit);
        lemma_find_open_at(s, i, a);
        lemma_no_close_in_expr(s, a + 3, e);
        lemma_find_close_at(s, a + 3, c);
        lemma_printable_skip(ts, q + 1);
        lemma_parse_printed(s, c + 2, rest);
        lemma_trim_plain(e);
        assert(lit_between(s, i, a) + seq![TokenView::Expr(trim(s.subrange(a + 3, c)))] + rest =~= ts);
    }
}

/// Law: printing tokens a template can hold, literals as they are and
/// expressions between `${{` and `}}`, and parsing the text gives the
/// tokens back.
pub proof fn law_print_parse(ts: Seq<TokenView>)
    requires
        printable(ts),
    ensures
        parse_spec(printed(ts)) == Some(ts),
{
    let s = printed(ts);
    assert(s.subrange(0, s.len() as int) =~= s);
    lemma_parse_printed(s, 0, ts);
}

/// Law: text without an opening delimiter is one literal (or no token at all
/// when it is empty); a lone closing delimiter is kept as text.
pub proof fn law_plain_text(s: Seq<char>)
    requires
        forall|k: int| !open_at(s, k),
    ensures
        parse_spec(s) == Some(if s.len() > 0 { seq![TokenView::Lit(s)] } else { Seq::<TokenView>::empty() }),
{
    lemma_find_open_none(s, 0);
    assert(s.subrange(0, s.len() as int) =~= s);
}

proof fn lemma_find_open_none(s: Seq<char>, i: int)
    requires
        0 <= i,
        forall|k: int| !open_at(s, k),
    ensures
        find_open(s, i) is None,
    decreases s.len() - i,
{
    if !(i + 3 > s.len()) {
        assert(!open_at(s, i));
        lemma_find_open_none(s, i + 1);
    }
}

fn find_open_exec(v: &Vec<char>, i: usize) -> (r: Option<usize>)
    requires
        i <= v@.len(),
    ensures
        r matches Some(k) ==> find_open(v@, i as int) == Some(k as int),
        r is None ==> find_open(v@, i as int) is None,
{
    let len = v.len();
    let mut k = i;
    while len - k >= 3
        invariant
            i <= k <= len,
            len == v@.len(),
            find_open(v@, i as int) == find_open(v@, k as int),
        decreases len - k,
    {
        if v[k] == '$' && v[k + 1] == '{' && v[k + 2] == '{' {
            return Some(k);
        }
        k = k + 1;
    }
    None
}

fn find_close_exec(v: &Vec<char>, i: usize) -> (r: Option<usize>)
    requires
        i <= v@.len(),
    ensures
        r matches Some(k) ==> find_close(v@, i as int) == Some(k as int),
        r is None ==> find_close(v@, i as int) is None,
{
    let len = v.len();
    let mut k = i;
    while len - k >= 2
        invariant
            i <= k <= len,
            len == v@.len(),
            find_close(v@, i as int) == find_close(v@, k as int),
        decreases len - k,
    {
        if v[k] == '}' && v[k + 1] == '}' {
            return Some(k);
        }
        k = k + 1;
    }
    None
}

impl Template {
    /// Parses template text: literal text is kept as it is, and every
    /// `${{ ... }}` becomes an expression token holding the trimmed text
    /// between the delimiters. An opening delimiter without a closing one is
    /// an error.
    pub fn parse(input: &str) -> (r: Result<Template, TemplateError>)
        ensures
            match r {
                Ok(t) => parse_spec(input@) == Some(t@),
                Err(_) => parse_spec(input@) is None,
            },
    {
        let v = chars_of(input);
        let len = v.len();
        let mut tokens: Vec<Token> = Vec::new();
        let mut i: usize = 0;
        loop
            invariant
                v@ == input@,
                len == v@.len(),
                i <= len,
                parse_spec(v@) == prepend(tokens@.map_values(|t: Token| t@), parse_from(v@, i as int)),
            decreases len - i,
        {
            let ghost before = tokens@.map_values(|t: Token| t@);
            match find_open_exec(&v, i) {
                Some(k) => {
                    proof {
                        lemma_find_open(v@, i as int);
                    }
                    if k > i {
                        tokens.push(Token::Lit(string_from(&v, i, k)));
                    }
                    let j = k + 3;
                    match find_close_exec(&v, j) {
                        Some(c) => {
                            proof {
                                lemma_find_close(v@, j as int);
                            }
                            tokens.push(Token::Expr(trimmed_string(&v, j, c)));
                            proof {
                                let added = lit_between(v@, i as int, k as int) + seq![
                                    TokenView::Expr(trim(v@.subrange(j as int, c as int))),
                                ];
                                assert(tokens@.map_values(|t: Token| t@) =~= before + added);
                                match parse_from(v@, c + 2) {
                                    Some(rest) => {
                                        assert(before + added + rest =~= before + (added + rest));
                                    },
                                    None => {},
                                }
                            }
                            i = c + 2;
                        },
                        None => {
                            return Err(TemplateError { open_end: j });
                        },
                    }
                },
                None => {
                    if i < len {
                        tokens.push(Token::Lit(string_from(&v, i, len)));
                    }
                    let t = Template { tokens };
                    assert(t@ =~= before + lit_between(v@, i as int, len as int));
                    return Ok(t);
                },
            }
        }
    }
}

impl TemplateError {
    /// Human readable description of the error.
    pub fn to_string(&self) -> (r: String)
        ensures
            r@ == "Missing closing template delimiter"@,
    {
        String::from_str("Missing closing template delimiter")
    }
}

impl core::str::FromStr for Template {
    type Err = TemplateError;

    fn from_str(input: &str) -> (r: Result<Template, TemplateError>)
        ensures
            match r {
                Ok(t) => parse_spec(input@) == Some(t@),
                Err(_) => parse_spec(input@) is None,
            },
    {
        Template::parse(input)
    }
}

} // verus!
