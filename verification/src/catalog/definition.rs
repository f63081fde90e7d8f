//! The statements that define tables.

use vstd::prelude::*;
use vstd::string::*;

use crate::catalog::names::chars_of;
use crate::util::id_map::{opt_view, views};
use crate::util::text::{append_decimal, decimal};

verus! {

/// A word, a quoted name, a quoted text or a sign of a statement.
#[derive(Debug, PartialEq, Eq)]
pub enum Token {
    Word(String),
    Quoted(String),
    Text(String),
    Symbol(char),
}

/// The mathematical model of [`Token`].
#[verifier::ext_equal]
pub enum TokenModel {
    Word(Seq<char>),
    Quoted(Seq<char>),
    Text(Seq<char>),
    Symbol(char),
}

impl View for Token {
    type V = TokenModel;

    open spec fn view(&self) -> TokenModel {
        match *self {
            Token::Word(s) => TokenModel::Word(s@),
            Token::Quoted(s) => TokenModel::Quoted(s@),
            Token::Text(s) => TokenModel::Text(s@),
            Token::Symbol(c) => TokenModel::Symbol(c),
        }
    }
}

// ---------------------------------------------------------------------------
// Tokens.
// ---------------------------------------------------------------------------

pub open spec fn is_space(c: char) -> bool {
    c == ' ' || c == '\t' || c == '\n' || c == '\r'
}

/// A letter, a digit, `_`, `$`, or anything that is not ASCII.
pub open spec fn is_word_char(c: char) -> bool {
    ('a' <= c && c <= 'z') || ('A' <= c && c <= 'Z') || ('0' <= c && c <= '9') || c == '_' || c
        == '$' || c >= '\u{80}'
}

/// How many characters of `s` belong to the word that it starts with.
pub open spec fn word_len(s: Seq<char>) -> nat
    decreases s.len(),
{
    if s.len() == 0 || !is_word_char(s[0]) {
        0
    } else {
        1 + word_len(s.skip(1))
    }
}

/// A quoted text up to its closing quote, and how many characters it takes with the quote. A quote
/// that is written twice stands for one.
pub open spec fn quoted(s: Seq<char>, quote: char) -> Option<(Seq<char>, nat)>
    decreases s.len(),
{
    if s.len() == 0 {
        None
    } else if s[0] != quote {
        further(seq![s[0]], 1, quoted(s.skip(1), quote))
    } else if s.len() > 1 && s[1] == quote {
        further(seq![quote], 2, quoted(s.skip(2), quote))
    } else {
        Some((Seq::empty(), 1))
    }
}

/// `text`, which takes `n` characters, with what follows it.
pub open spec fn further(text: Seq<char>, n: nat, rest: Option<(Seq<char>, nat)>) -> Option<
    (Seq<char>, nat),
> {
    match rest {
        Some((t, m)) => Some((text + t, n + m)),
        None => None,
    }
}

/// How many characters of `s` belong to the line that it starts in, with the end of the line.
pub open spec fn line_len(s: Seq<char>) -> nat
    decreases s.len(),
{
    if s.len() == 0 {
        0
    } else if s[0] == '\n' {
        1
    } else {
        1 + line_len(s.skip(1))
    }
}

/// How many characters of `s` stand up to the first mark that closes a comment, with the mark.
pub open spec fn comment_len(s: Seq<char>) -> Option<nat>
    decreases s.len(),
{
    if s.len() < 2 {
        None
    } else if s[0] == '*' && s[1] == '/' {
        Some(2)
    } else {
        match comment_len(s.skip(1)) {
            Some(n) => Some(n + 1),
            None => None,
        }
    }
}

/// `s` starts with these two characters.
pub open spec fn starts_with(s: Seq<char>, a: char, b: char) -> bool {
    s.len() > 1 && s[0] == a && s[1] == b
}

/// `tokens`, with what follows them.
pub open spec fn followed(tokens: Seq<TokenModel>, rest: Option<Seq<TokenModel>>) -> Option<
    Seq<TokenModel>,
> {
    match rest {
        Some(q) => Some(tokens + q),
        None => None,
    }
}

/// The tokens of a statement, unless a quote or a comment is not closed. Comments are read as
/// space.
pub open spec fn tokens_of(s: Seq<char>) -> Option<Seq<TokenModel>>
    decreases s.len(),
{
    if s.len() == 0 {
        Some(Seq::empty())
    } else if is_space(s[0]) {
        tokens_of(s.skip(1))
    } else if is_word_char(s[0]) {
        let n = word_len(s) as int;
        if 0 < n <= s.len() {
            followed(seq![TokenModel::Word(s.take(n))], tokens_of(s.skip(n)))
        } else {
            None
        }
    } else if s[0] == '\'' || s[0] == '"' {
        match quoted(s.skip(1), s[0]) {
            None => None,
            Some((t, n)) => if n < s.len() {
                followed(
                    seq![
                        if s[0] == '"' {
                            TokenModel::Quoted(t)
                        } else {
                            TokenModel::Text(t)
                        },
                    ],
                    tokens_of(s.skip(1 + n as int)),
                )
            } else {
                None
            },
        }
    } else if starts_with(s, '-', '-') {
        proof {
            lemma_line_len(s.skip(2));
        }
        tokens_of(s.skip(2 + line_len(s.skip(2)) as int))
    } else if starts_with(s, '/', '*') {
        proof {
            lemma_comment_len(s.skip(2));
        }
        match comment_len(s.skip(2)) {
            None => None,
            Some(n) => tokens_of(s.skip(2 + n as int)),
        }
    } else {
        followed(seq![TokenModel::Symbol(s[0])], tokens_of(s.skip(1)))
    }
}

/// A line is no longer than the text.
pub proof fn lemma_line_len(s: Seq<char>)
    ensures
        line_len(s) <= s.len(),
    decreases s.len(),
{
    if s.len() > 0 {
        lemma_line_len(s.skip(1));
    }
}

/// A comment is no longer than the text.
pub proof fn lemma_comment_len(s: Seq<char>)
    ensures
        comment_len(s) is Some ==> comment_len(s)->0 <= s.len(),
    decreases s.len(),
{
    if s.len() > 1 {
        lemma_comment_len(s.skip(1));
    }
}

proof fn lemma_quoted_len(s: Seq<char>, quote: char)
    ensures
        quoted(s, quote) is Some ==> (quoted(s, quote)->0).1 <= s.len(),
    decreases s.len(),
{
    if s.len() > 0 {
        if s[0] != quote {
            lemma_quoted_len(s.skip(1), quote);
        } else if s.len() > 1 && s[1] == quote {
            lemma_quoted_len(s.skip(2), quote);
        }
    }
}

fn space(c: char) -> (r: bool)
    ensures
        r == is_space(c),
{
    c == ' ' || c == '\t' || c == '\n' || c == '\r'
}

fn word_char(c: char) -> (r: bool)
    ensures
        r == is_word_char(c),
{
    ('a' <= c && c <= 'z') || ('A' <= c && c <= 'Z') || ('0' <= c && c <= '9') || c == '_' || c
        == '$' || c >= '\u{80}'
}

/// Where the word that stands at `i` ends.
fn word_end(cs: &Vec<char>, i: usize) -> (r: usize)
    requires
        i <= cs@.len(),
    ensures
        r == i + word_len(cs@.skip(i as int)),
        r <= cs@.len(),
{
    let mut j: usize = i;
    while j < cs.len() && word_char(cs[j])
        invariant
            i <= j <= cs.len(),
            word_len(cs@.skip(i as int)) == (j - i) + word_len(cs@.skip(j as int)),
        decreases cs.len() - j,
    {
        assert(cs@.skip(j as int).skip(1) =~= cs@.skip(j + 1));
        j = j + 1;
    }
    j
}

/// Where the line ends that `i` stands in.
fn line_end(cs: &Vec<char>, i: usize) -> (r: usize)
    requires
        i <= cs@.len(),
    ensures
        r == i + line_len(cs@.skip(i as int)),
        r <= cs@.len(),
{
    let mut j: usize = i;
    while j < cs.len()
        invariant
            i <= j <= cs.len(),
            line_len(cs@.skip(i as int)) == (j - i) + line_len(cs@.skip(j as int)),
        decreases cs.len() - j,
    {
        assert(cs@.skip(j as int)[0] == cs@[j as int]);
        if cs[j] == '\n' {
            return j + 1;
        }
        assert(cs@.skip(j as int).skip(1) =~= cs@.skip(j + 1));
        j = j + 1;
    }
    j
}

/// Where the comment ends that `i` stands in.
fn comment_end(cs: &Vec<char>, i: usize) -> (r: Option<usize>)
    requires
        i <= cs@.len(),
    ensures
        match comment_len(cs@.skip(i as int)) {
            None => r is None,
            Some(n) => r is Some && r->0 == i + n && i + n <= cs@.len(),
        },
{
    let mut j: usize = i;
    while cs.len() - j > 1
        invariant
            i <= j <= cs.len(),
            comment_len(cs@.skip(i as int)) == match comment_len(cs@.skip(j as int)) {
                Some(n) => Some((n + (j - i)) as nat),
                None => None,
            },
        decreases cs.len() - j,
    {
        proof {
            assert(cs@.skip(j as int)[0] == cs@[j as int]);
            assert(cs@.skip(j as int)[1] == cs@[j + 1]);
            assert(cs@.skip(j as int).skip(1) =~= cs@.skip(j + 1));
        }
        if cs[j] == '*' && cs[j + 1] == '/' {
            return Some(j + 2);
        }
        j = j + 1;
    }
    assert(cs@.skip(j as int).len() < 2);
    None
}

/// The quoted text that stands at `i`, and where it ends.
fn read_quoted(s: &str, cs: &Vec<char>, i: usize, quote: char) -> (r: Option<(String, usize)>)
    requires
        cs@ == s@,
        i <= cs@.len(),
    ensures
        match quoted(s@.skip(i as int), quote) {
            None => r is None,
            Some((t, n)) => r is Some && (r->0).0@ == t && (r->0).1 == i + n && i + n <= s@.len(),
        },
{
    let ghost start = s@.skip(i as int);
    let mut text = String::new();
    let mut j: usize = i;
    proof {
        assert(text@ =~= Seq::empty());
        match quoted(start, quote) {
            Some((t, n)) => {
                assert(Seq::<char>::empty() + t =~= t);
            },
            None => {},
        }
        lemma_quoted_len(start, quote);
    }
    while j < cs.len()
        invariant
            i <= j <= cs.len(),
            cs@ == s@,
            start == s@.skip(i as int),
            quoted(start, quote) is Some ==> (quoted(start, quote)->0).1 <= start.len(),
            quoted(start, quote) == further(
                text@,
                (j - i) as nat,
                quoted(s@.skip(j as int), quote),
            ),
        decreases cs.len() - j,
    {
        let ghost here = s@.skip(j as int);
        let ghost before = text@;
        let c = cs[j];
        assert(here[0] == c);
        if c != quote {
            text.append(s.substring_char(j, j + 1));
            proof {
                assert(s@.subrange(j as int, j + 1) =~= seq![c]);
                assert(here.skip(1) =~= s@.skip(j + 1));
                match quoted(s@.skip(j + 1), quote) {
                    Some((t, n)) => {
                        assert(before + (seq![c] + t) =~= (before + seq![c]) + t);
                    },
                    None => {},
                }
            }
            j = j + 1;
        } else if j + 1 < cs.len() && cs[j + 1] == quote {
            assert(here[1] == quote);
            text.append(s.substring_char(j, j + 1));
            proof {
                assert(s@.subrange(j as int, j + 1) =~= seq![quote]);
                assert(here.skip(2) =~= s@.skip(j + 2));
                match quoted(s@.skip(j + 2), quote) {
                    Some((t, n)) => {
                        assert(before + (seq![quote] + t) =~= (before + seq![quote]) + t);
                    },
                    None => {},
                }
            }
            j = j + 2;
        } else {
            assert(before + Seq::<char>::empty() =~= before);
            return Some((text, j + 1));
        }
    }
    assert(s@.skip(j as int).len() == 0);
    None
}

/// The tokens of a statement, unless a quote or a comment is not closed.
pub fn tokenize(s: &str) -> (r: Option<Vec<Token>>)
    ensures
        match tokens_of(s@) {
            None => r is None,
            Some(q) => r is Some && views(r->0@) == q,
        },
{
    let cs = chars_of(s);
    let mut tokens: Vec<Token> = Vec::new();
    let mut i: usize = 0;
    proof {
        assert(s@.skip(0) =~= s@);
        assert(views(tokens@) =~= Seq::empty());
        match tokens_of(s@) {
            Some(q) => {
                assert(Seq::<TokenModel>::empty() + q =~= q);
            },
            None => {},
        }
    }
    while i < cs.len()
        invariant
            i <= cs.len(),
            cs@ == s@,
            tokens_of(s@) == followed(
                views(tokens@),
                tokens_of(s@.skip(i as int)),
            ),
        decreases cs.len() - i,
    {
        let ghost here = s@.skip(i as int);
        let ghost before = tokens@;
        let c = cs[i];
        assert(here[0] == c);
        if space(c) {
            assert(here.skip(1) =~= s@.skip(i + 1));
            i = i + 1;
        } else if word_char(c) {
            let end: usize = word_end(&cs, i);
            let token = Token::Word(String::from_str(s.substring_char(i, end)));
            tokens.push(token);
            proof {
                assert(s@.subrange(i as int, end as int) =~= here.take(end - i));
                assert(here.skip(end - i) =~= s@.skip(end as int));
                lemma_joined(before, token, tokens_of(s@.skip(end as int)));
            }
            i = end;
        } else if c == '\'' || c == '"' {
            assert(here.skip(1) =~= s@.skip(i + 1));
            match read_quoted(s, &cs, i + 1, c) {
                None => {
                    return None;
                },
                Some((text, end)) => {
                    let token = if c == '"' {
                        Token::Quoted(text)
                    } else {
                        Token::Text(text)
                    };
                    tokens.push(token);
                    proof {
                        assert(here.skip(end - i) =~= s@.skip(end as int));
                        lemma_joined(before, token, tokens_of(s@.skip(end as int)));
                    }
                    i = end;
                },
            }
        } else if c == '-' && cs.len() - i > 1 && cs[i + 1] == '-' {
            let end: usize = line_end(&cs, i + 2);
            proof {
                assert(here[1] == cs@[i + 1]);
                assert(here.skip(2) =~= s@.skip(i + 2));
                assert(here.skip(end - i) =~= s@.skip(end as int));
            }
            i = end;
        } else if c == '/' && cs.len() - i > 1 && cs[i + 1] == '*' {
            proof {
                assert(here[1] == cs@[i + 1]);
                assert(here.skip(2) =~= s@.skip(i + 2));
            }
            match comment_end(&cs, i + 2) {
                None => {
                    return None;
                },
                Some(end) => {
                    assert(here.skip(end - i) =~= s@.skip(end as int));
                    i = end;
                },
            }
        } else {
            assert(here.len() > 1 ==> here[1] == cs@[i + 1]);
            let token = Token::Symbol(c);
            tokens.push(token);
            proof {
                assert(here.skip(1) =~= s@.skip(i + 1));
                lemma_joined(before, token, tokens_of(s@.skip(i + 1)));
            }
            i = i + 1;
        }
    }
    proof {
        assert(s@.skip(i as int).len() == 0);
        let q = views(tokens@);
        assert(q + Seq::<TokenModel>::empty() =~= q);
    }
    Some(tokens)
}

proof fn lemma_joined(before: Seq<Token>, token: Token, rest: Option<Seq<TokenModel>>)
    ensures
        followed(views(before), followed(seq![token@], rest)) == followed(
            views(before.push(token)),
            rest,
        ),
{
    assert(views(before.push(token)) =~= views(before).push(token@));
    match rest {
        Some(q) => {
            assert(views(before) + (seq![token@] + q) =~= views(before).push(token@) + q);
        },
        None => {},
    }
}

// ---------------------------------------------------------------------------
// The external table that a table is defined from.
// ---------------------------------------------------------------------------

/// `a` is the capital letter `b`, or the small letter of it.
pub open spec fn same_letter(a: char, b: char) -> bool {
    a == b || ('a' <= a && a <= 'z' && a as int - 32 == b as int)
}

/// The token is this keyword, in capital or small letters.
pub open spec fn is_keyword(t: TokenModel, keyword: Seq<char>) -> bool {
    match t {
        TokenModel::Word(w) => w.len() == keyword.len() && forall|i: int|
            0 <= i < w.len() ==> same_letter(#[trigger] w[i], keyword[i]),
        _ => false,
    }
}

/// The token can be a name.
pub open spec fn is_name(t: TokenModel) -> bool {
    t is Word || t is Quoted
}

/// How many tokens the name takes that `q` starts with: names with dots between them.
pub open spec fn name_len(q: Seq<TokenModel>) -> nat
    decreases q.len(),
{
    if q.len() == 0 || !is_name(q[0]) {
        0
    } else if q.len() > 2 && q[1] == TokenModel::Symbol('.') && is_name(q[2]) {
        2 + name_len(q.skip(2))
    } else {
        1
    }
}

/// The text in `FROM source TABLE 'text'`, where `q` starts with that.
pub open spec fn external_at(q: Seq<TokenModel>) -> Option<Seq<char>> {
    if q.len() > 0 && is_keyword(q[0], "FROM"@) {
        let n = name_len(q.skip(1)) as int;
        if n > 0 && n + 2 < q.len() && is_keyword(q[n + 1], "TABLE"@) && q[n + 2] is Text {
            Some(q[n + 2]->Text_0)
        } else {
            None
        }
    } else {
        None
    }
}

/// How many brackets the token opens.
pub open spec fn opens(t: TokenModel) -> int {
    if t == TokenModel::Symbol('(') {
        1
    } else if t == TokenModel::Symbol(')') {
        -1
    } else {
        0
    }
}

/// The first text in `FROM source TABLE 'text'` outside all brackets, of which `depth` are open.
pub open spec fn external_in(q: Seq<TokenModel>, depth: int) -> Option<Seq<char>>
    decreases q.len(),
{
    if q.len() == 0 {
        None
    } else if depth == 0 && external_at(q) is Some {
        external_at(q)
    } else {
        external_in(q.skip(1), depth + opens(q[0]))
    }
}

/// How many tokens `CREATE TABLE` or `CREATE OR REPLACE TABLE` takes, where `q` starts with that.
pub open spec fn head_len(q: Seq<TokenModel>) -> nat {
    if q.len() >= 2 && is_keyword(q[0], "CREATE"@) && is_keyword(q[1], "TABLE"@) {
        2
    } else if q.len() >= 4 && is_keyword(q[0], "CREATE"@) && is_keyword(q[1], "OR"@) && is_keyword(
        q[2],
        "REPLACE"@,
    ) && is_keyword(q[3], "TABLE"@) {
        4
    } else {
        0
    }
}

/// The external table that a statement creates a table from.
pub open spec fn external_table_name(definition: Seq<char>) -> Option<Seq<char>> {
    match tokens_of(definition) {
        None => None,
        Some(q) => if head_len(q) == 0 {
            None
        } else {
            external_in(q.skip(head_len(q) as int), 0)
        },
    }
}

fn keyword(t: &Token, word: &str) -> (r: bool)
    ensures
        r == is_keyword(t@, word@),
{
    match t {
        Token::Word(w) => {
            let a = chars_of(w.as_str());
            let b = chars_of(word);
            if a.len() != b.len() {
                return false;
            }
            let mut i: usize = 0;
            while i < a.len()
                invariant
                    i <= a.len(),
                    a@.len() == b@.len(),
                    t@ == TokenModel::Word(a@),
                    b@ == word@,
                    forall|k: int| 0 <= k < i ==> same_letter(#[trigger] a@[k], b@[k]),
                decreases a.len() - i,
            {
                let x = a[i];
                let y = b[i];
                let same = x == y || ('a' <= x && x <= 'z' && 'A' <= y && y <= 'Z' && (x as u32) - 32
                    == y as u32);
                if !same {
                    assert(!same_letter(a@[i as int], b@[i as int]));
                    return false;
                }
                i = i + 1;
            }
            true
        },
        _ => false,
    }
}

fn name(t: &Token) -> (r: bool)
    ensures
        r == is_name(t@),
{
    match t {
        Token::Word(_) => true,
        Token::Quoted(_) => true,
        _ => false,
    }
}

fn symbol(t: &Token, c: char) -> (r: bool)
    ensures
        r == (t@ == TokenModel::Symbol(c)),
{
    match t {
        Token::Symbol(d) => *d == c,
        _ => false,
    }
}

/// Where the name that stands at `i` ends.
fn name_end(tokens: &Vec<Token>, i: usize) -> (r: usize)
    requires
        i <= tokens@.len(),
    ensures
        r == i + name_len(views(tokens@).skip(i as int)),
        r <= tokens@.len(),
{
    let ghost q = views(tokens@);
    if i == tokens.len() {
        return i;
    }
    assert(q.skip(i as int)[0] == tokens@[i as int]@);
    if !name(&tokens[i]) {
        return i;
    }
    let mut j: usize = i;
    while tokens.len() - j > 2 && symbol(&tokens[j + 1], '.') && name(&tokens[j + 2])
        invariant
            i <= j < tokens.len(),
            q == views(tokens@),
            is_name(q[j as int]),
            name_len(q.skip(i as int)) == (j - i) + name_len(q.skip(j as int)),
        decreases tokens.len() - j,
    {
        proof {
            let here = q.skip(j as int);
            assert(here[0] == q[j as int]);
            assert(here[1] == tokens@[j + 1]@);
            assert(here[2] == tokens@[j + 2]@);
            assert(here.skip(2) =~= q.skip(j + 2));
        }
        j = j + 2;
    }
    proof {
        let here = q.skip(j as int);
        assert(here[0] == q[j as int]);
        if here.len() > 2 {
            assert(here[1] == tokens@[j + 1]@);
            assert(here[2] == tokens@[j + 2]@);
        }
    }
    j + 1
}

fn read_external(tokens: &Vec<Token>, i: usize) -> (r: Option<String>)
    requires
        i < tokens@.len(),
    ensures
        opt_view(r) == external_at(
            views(tokens@).skip(i as int),
        ),
{
    let ghost q = views(tokens@);
    let ghost here = q.skip(i as int);
    assert(here[0] == tokens@[i as int]@);
    if i >= tokens.len() || !keyword(&tokens[i], "FROM") {
        return None;
    }
    let end: usize = name_end(tokens, i + 1);
    assert(here.skip(1) =~= q.skip(i + 1));
    if end == i + 1 || tokens.len() - end < 2 {
        return None;
    }
    proof {
        let n = end - i - 1;
        assert(here[n + 1] == tokens@[end as int]@);
        assert(here[n + 2] == tokens@[end + 1]@);
    }
    if !keyword(&tokens[end], "TABLE") {
        return None;
    }
    match &tokens[end + 1] {
        Token::Text(text) => Some(text.clone()),
        _ => None,
    }
}

/// The name of the external table that a `CREATE TABLE .. FROM source TABLE 'name'` statement
/// creates a table from.
pub fn extract_external_table_name_from_definition(table_definition: &str) -> (r: Option<String>)
    ensures
        opt_view(r) == external_table_name(table_definition@),
{
    let tokens = match tokenize(table_definition) {
        Some(tokens) => tokens,
        None => {
            return None;
        },
    };
    let ghost q = views(tokens@);
    let start: usize = if tokens.len() >= 2 && keyword(&tokens[0], "CREATE") && keyword(
        &tokens[1],
        "TABLE",
    ) {
        2
    } else if tokens.len() >= 4 && keyword(&tokens[0], "CREATE") && keyword(&tokens[1], "OR")
        && keyword(&tokens[2], "REPLACE") && keyword(&tokens[3], "TABLE") {
        4
    } else {
        return None;
    };
    assert(start == head_len(q));
    let mut depth: i128 = 0;
    let mut i: usize = start;
    while i < tokens.len()
        invariant
            start <= i <= tokens.len(),
            q == views(tokens@),
            tokens_of(table_definition@) == Some(q),
            start == head_len(q),
            start > 0,
            -(i as int) <= depth <= i,
            external_in(q.skip(start as int), 0) == external_in(q.skip(i as int), depth as int),
        decreases tokens.len() - i,
    {
        let ghost here = q.skip(i as int);
        proof {
            assert(here[0] == tokens@[i as int]@);
            assert(here.skip(1) =~= q.skip(i + 1));
        }
        if depth == 0 {
            let found = read_external(&tokens, i);
            if found.is_some() {
                return found;
            }
        }
        if symbol(&tokens[i], '(') {
            depth = depth + 1;
        } else if symbol(&tokens[i], ')') {
            depth = depth - 1;
        }
        i = i + 1;
    }
    assert(q.skip(i as int).len() == 0);
    None
}

/// What identifies an external table: its source and its name.
pub open spec fn cdc_table_id(source_id: u32, external_table_name: Seq<char>) -> Seq<char> {
    decimal(source_id as nat) + "."@ + external_table_name
}

pub fn build_cdc_table_id(source_id: u32, external_table_name: &String) -> (r: String)
    ensures
        r@ == cdc_table_id(source_id, external_table_name@),
{
    let mut s = String::new();
    append_decimal(&mut s, source_id as u64);
    s.append(".");
    s.append(external_table_name.as_str());
    assert(s@ =~= cdc_table_id(source_id, external_table_name@));
    s
}

} // verus!
