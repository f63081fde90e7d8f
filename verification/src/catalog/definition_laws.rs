//! How the definition of a table is read.

use vstd::prelude::*;
use vstd::string::*;

use crate::catalog::definition::{
    cdc_table_id, external_at, external_in, external_table_name, followed, is_keyword, is_word_char,
    name_len, quoted, tokens_of, word_len, TokenModel,
};
use crate::util::text::decimal;

verus! {

/// A text as it is written between quotes: a quote in it stands twice.
pub open spec fn doubled(t: Seq<char>, quote: char) -> Seq<char>
    decreases t.len(),
{
    if t.len() == 0 {
        Seq::empty()
    } else if t[0] == quote {
        seq![quote, quote] + doubled(t.skip(1), quote)
    } else {
        seq![t[0]] + doubled(t.skip(1), quote)
    }
}

/// What is written between quotes is read back, up to the closing quote.
pub proof fn law_quoted_text_is_read_back(t: Seq<char>, quote: char, rest: Seq<char>)
    requires
        rest.len() > 0 ==> rest[0] != quote,
    ensures
        quoted(doubled(t, quote) + seq![quote] + rest, quote) == Some(
            (t, (doubled(t, quote).len() + 1) as nat),
        ),
    decreases t.len(),
{
    let s = doubled(t, quote) + seq![quote] + rest;
    if t.len() == 0 {
        assert(s[0] == quote);
        if s.len() > 1 {
            assert(s[1] == rest[0]);
        }
        assert(t =~= Seq::empty());
    } else {
        let u = t.skip(1);
        law_quoted_text_is_read_back(u, quote, rest);
        let inner = doubled(u, quote) + seq![quote] + rest;
        assert(seq![t[0]] + u =~= t);
        if t[0] == quote {
            assert(s[0] == quote && s[1] == quote);
            assert(s.skip(2) =~= inner);
            assert(seq![quote] + u =~= t);
        } else {
            assert(s[0] == t[0]);
            assert(s.skip(1) =~= inner);
        }
    }
}

/// A text in single quotes is one token, a name in double quotes another, and reading goes on behind it.
pub proof fn law_quoted_tokens(t: Seq<char>, rest: Seq<char>)
    ensures
        (rest.len() > 0 ==> rest[0] != '\'') ==> tokens_of(
            seq!['\''] + doubled(t, '\'') + seq!['\''] + rest,
        ) == followed(seq![TokenModel::Text(t)], tokens_of(rest)),
        (rest.len() > 0 ==> rest[0] != '"') ==> tokens_of(
            seq!['"'] + doubled(t, '"') + seq!['"'] + rest,
        ) == followed(seq![TokenModel::Quoted(t)], tokens_of(rest)),
{
    if rest.len() > 0 ==> rest[0] != '\'' {
        let d = doubled(t, '\'');
        let s = seq!['\''] + d + seq!['\''] + rest;
        law_quoted_text_is_read_back(t, '\'', rest);
        assert(s.skip(1) =~= d + seq!['\''] + rest);
        assert(s[0] == '\'');
        assert(s.skip(1 + (d.len() + 1) as int) =~= rest);
    }
    if rest.len() > 0 ==> rest[0] != '"' {
        let d = doubled(t, '"');
        let s = seq!['"'] + d + seq!['"'] + rest;
        law_quoted_text_is_read_back(t, '"', rest);
        assert(s.skip(1) =~= d + seq!['"'] + rest);
        assert(s[0] == '"');
        assert(s.skip(1 + (d.len() + 1) as int) =~= rest);
    }
}

proof fn lemma_word_len(w: Seq<char>, rest: Seq<char>)
    requires
        forall|i: int| 0 <= i < w.len() ==> is_word_char(#[trigger] w[i]),
        rest.len() > 0 ==> !is_word_char(rest[0]),
    ensures
        word_len(w + rest) == w.len(),
    decreases w.len(),
{
    if w.len() == 0 {
        assert(w + rest =~= rest);
    } else {
        assert((w + rest)[0] == w[0]);
        assert((w + rest).skip(1) =~= w.skip(1) + rest);
        lemma_word_len(w.skip(1), rest);
    }
}

/// A word is one token; what separates tokens is none.
pub proof fn law_words_and_spaces(w: Seq<char>, rest: Seq<char>, c: char)
    requires
        w.len() > 0,
        forall|i: int| 0 <= i < w.len() ==> is_word_char(#[trigger] w[i]),
        rest.len() > 0 ==> !is_word_char(rest[0]),
        c == ' ' || c == '\t' || c == '\n' || c == '\r',
    ensures
        tokens_of(w + rest) == followed(seq![TokenModel::Word(w)], tokens_of(rest)),
        tokens_of(seq![c] + rest) == tokens_of(rest),
        tokens_of(Seq::empty()) == Some(Seq::<TokenModel>::empty()),
{
    let s = w + rest;
    lemma_word_len(w, rest);
    assert(s[0] == w[0]);
    assert(is_word_char(w[0]));
    assert(s.take(w.len() as int) =~= w);
    assert(s.skip(w.len() as int) =~= rest);
    let t = seq![c] + rest;
    assert(t[0] == c);
    assert(t.skip(1) =~= rest);
}

/// A keyword is a word that is written in upper or in lower case, letter for letter.
pub proof fn law_keywords(w: Seq<char>, keyword: Seq<char>, t: Seq<char>)
    ensures
        is_keyword(TokenModel::Word(keyword), keyword),
        is_keyword(TokenModel::Word(w), keyword) <==> w.len() == keyword.len() && forall|i: int|
            0 <= i < w.len() ==> #[trigger] w[i] == keyword[i] || ('a' <= w[i] <= 'z' && w[i] as int
                == keyword[i] as int + 32),
        !is_keyword(TokenModel::Text(t), keyword),
        !is_keyword(TokenModel::Quoted(t), keyword),
{
}

/// The external table of a table is the text behind `FROM` with the name of a source and `TABLE`, where this
/// is not in parentheses.
pub proof fn law_external_table_is_the_text(
    from: TokenModel,
    name: TokenModel,
    table: TokenModel,
    t: Seq<char>,
    rest: Seq<TokenModel>,
)
    requires
        is_keyword(from, "FROM"@),
        is_keyword(table, "TABLE"@),
        name is Word || name is Quoted,
    ensures
        external_in(seq![from, name, table, TokenModel::Text(t)] + rest, 0) == Some(t),
{
    let q = seq![from, name, table, TokenModel::Text(t)] + rest;
    let r = q.skip(1);
    assert(q[0] == from && q[1] == name && q[2] == table && q[3] == TokenModel::Text(t));
    assert(r[0] == name && r[1] == table);
    assert(table is Word);
    assert(name_len(r) == 1);
    assert(external_at(q) == Some(t));
}

/// Other tokens are passed over; inside parentheses everything is.
pub proof fn law_other_tokens_are_passed_over(token: TokenModel, rest: Seq<TokenModel>, depth: int)
    requires
        depth != 0 || !is_keyword(token, "FROM"@),
    ensures
        token == TokenModel::Symbol('(') ==> external_in(seq![token] + rest, depth) == external_in(
            rest,
            depth + 1,
        ),
        token == TokenModel::Symbol(')') ==> external_in(seq![token] + rest, depth) == external_in(
            rest,
            depth - 1,
        ),
        token != TokenModel::Symbol('(') && token != TokenModel::Symbol(')') ==> external_in(
            seq![token] + rest,
            depth,
        ) == external_in(rest, depth),
        external_in(Seq::empty(), depth) is None,
{
    let q = seq![token] + rest;
    assert(q[0] == token);
    assert(q.skip(1) =~= rest);
    assert(depth == 0 ==> external_at(q) is None);
}

/// Only the definition of a table has an external table; it is looked for behind `CREATE TABLE` or
/// `CREATE OR REPLACE TABLE`.
pub proof fn law_only_tables_have_external_tables(definition: Seq<char>, q: Seq<TokenModel>)
    requires
        tokens_of(definition) == Some(q),
    ensures
        q.len() == 0 || !is_keyword(q[0], "CREATE"@) ==> external_table_name(definition) is None,
        q.len() >= 2 && is_keyword(q[0], "CREATE"@) && is_keyword(q[1], "TABLE"@) ==> external_table_name(
            definition,
        ) == external_in(q.skip(2), 0),
        q.len() >= 4 && is_keyword(q[0], "CREATE"@) && is_keyword(q[1], "OR"@) && is_keyword(
            q[2],
            "REPLACE"@,
        ) && is_keyword(q[3], "TABLE"@) ==> external_table_name(definition) == external_in(q.skip(4), 0),
{
    reveal_strlit("OR");
    reveal_strlit("TABLE");
}

/// The identifier of an external table starts with that of its source, and two of the same source differ
/// where their tables do.
pub proof fn law_identifiers_of_external_tables(source: u32, a: Seq<char>, b: Seq<char>)
    ensures
        cdc_table_id(source, a).take(decimal(source as nat).len() as int) == decimal(source as nat),
        cdc_table_id(source, a) == cdc_table_id(source, b) ==> a == b,
        cdc_table_id(source, a).skip(decimal(source as nat).len() as int) == "."@ + a,
{
    let p = decimal(source as nat);
    let d = "."@;
    let x = cdc_table_id(source, a);
    let y = cdc_table_id(source, b);
    assert(x.take(p.len() as int) =~= p);
    assert(x.skip(p.len() as int) =~= d + a);
    assert(x.skip((p.len() + d.len()) as int) =~= a);
    assert(y.skip((p.len() + d.len()) as int) =~= b);
}

} // verus!
