//! The lexer: splits a command line into tokens.
//!
//! Blanks (space, tab, line feed, form feed) separate tokens and are dropped.
//! At each position the longest token that matches is taken: `>>` before `>`,
//! `&&` before `&`, `||` before `|`, and `2>` before the word `2`. A word is a
//! maximal run of characters that are neither blanks nor one of `; | & < >`.

use vstd::prelude::*;

use crate::command::RedirectionType;

verus! {

/// A lexical token of a command line.
#[derive(Debug, PartialEq, Clone)]
pub enum Token {
    /// `<`, `>`, `>>` or `2>`
    RedirectOp(RedirectionType),
    /// `;`
    Separator,
    /// `&&`
    And,
    /// `&`, the background operator
    BackgroundOp,
    /// `||`
    Or,
    /// `|`
    Pipe,
    /// Any other maximal run of non-blank, non-operator characters
    Word(String),
}

/// The mathematical value of a token: a word is its sequence of characters.
pub enum TokenModel {
    RedirectOp(RedirectionType),
    Separator,
    And,
    BackgroundOp,
    Or,
    Pipe,
    Word(Seq<char>),
}

impl View for Token {
    type V = TokenModel;

    open spec fn view(&self) -> TokenModel {
        match self {
            Token::RedirectOp(k) => TokenModel::RedirectOp(*k),
            Token::Separator => TokenModel::Separator,
            Token::And => TokenModel::And,
            Token::BackgroundOp => TokenModel::BackgroundOp,
            Token::Or => TokenModel::Or,
            Token::Pipe => TokenModel::Pipe,
            Token::Word(w) => TokenModel::Word(w@),
        }
    }
}

/// The models of a sequence of tokens.
pub open spec fn tokens_model(tokens: Seq<Token>) -> Seq<TokenModel> {
    tokens.map_values(|t: Token| t@)
}

/// An error of the lexer. Every character is part of a blank run, an
/// operator or a word, so the lexer never produces it.
#[derive(Debug)]
pub enum LexingError {
    UnknownToken(String),
}

impl LexingError {
    /// The message that describes the error: `Unexpected token: <text>`.
    pub fn message(&self) -> (msg: String)
        ensures
            match self {
                LexingError::UnknownToken(t) => msg@ == "Unexpected token: "@ + t@,
            },
    {
        match self {
            LexingError::UnknownToken(t) => {
                let mut msg = String::from_str("Unexpected token: ");
                msg.append(t.as_str());
                msg
            },
        }
    }
}

/// Characters skipped between tokens.
pub open spec fn is_blank(c: char) -> bool {
    c == ' ' || c == '\t' || c == '\n' || c == '\x0C'
}

/// Characters that start an operator.
pub open spec fn is_operator_char(c: char) -> bool {
    c == ';' || c == '|' || c == '&' || c == '<' || c == '>'
}

/// Characters that may stand in a word.
pub open spec fn is_word_char(c: char) -> bool {
    !is_blank(c) && !is_operator_char(c)
}

/// The length of the longest prefix of `s` made of word characters.
pub open spec fn word_len(s: Seq<char>) -> nat
    decreases s.len(),
{
    if s.len() > 0 && is_word_char(s[0]) {
        1 + word_len(s.drop_first())
    } else {
        0
    }
}

/// The token that starts `s` and the number of characters it spans, for an
/// `s` whose first character is not a blank.
pub open spec fn front_token(s: Seq<char>) -> (TokenModel, nat) {
    let c = s[0];
    let next = |d: char| s.len() > 1 && s[1] == d;
    if c == '<' {
        (TokenModel::RedirectOp(RedirectionType::In), 1)
    } else if c == '>' {
        if next('>') {
            (TokenModel::RedirectOp(RedirectionType::Append), 2)
        } else {
            (TokenModel::RedirectOp(RedirectionType::Out), 1)
        }
    } else if c == '2' && next('>') {
        (TokenModel::RedirectOp(RedirectionType::Stderr), 2)
    } else if c == ';' {
        (TokenModel::Separator, 1)
    } else if c == '&' {
        if next('&') {
            (TokenModel::And, 2)
        } else {
            (TokenModel::BackgroundOp, 1)
        }
    } else if c == '|' {
        if next('|') {
            (TokenModel::Or, 2)
        } else {
            (TokenModel::Pipe, 1)
        }
    } else {
        (TokenModel::Word(s.take(word_len(s) as int)), word_len(s))
    }
}

/// The tokens of the command line `s`.
pub open spec fn spec_tokenize(s: Seq<char>) -> Seq<TokenModel>
    decreases s.len(),
{
    if s.len() == 0 {
        Seq::empty()
    } else if is_blank(s[0]) {
        spec_tokenize(s.drop_first())
    } else {
        proof {
            lemma_front_token_len(s);
        }
        seq![front_token(s).0] + spec_tokenize(s.skip(front_token(s).1 as int))
    }
}

/// A word run never extends past the end of `s`.
pub proof fn lemma_word_len_bound(s: Seq<char>)
    ensures
        word_len(s) <= s.len(),
    decreases s.len(),
{
    if s.len() > 0 && is_word_char(s[0]) {
        lemma_word_len_bound(s.drop_first());
    }
}

/// The word run of `s` is made of word characters and ends at the end of
/// `s` or at a character that is not a word character.
pub proof fn lemma_word_len_run(s: Seq<char>)
    ensures
        word_len(s) <= s.len(),
        forall|k: int| 0 <= k < word_len(s) ==> is_word_char(#[trigger] s[k]),
        word_len(s) < s.len() ==> !is_word_char(s[word_len(s) as int]),
    decreases s.len(),
{
    lemma_word_len_bound(s);
    if s.len() > 0 && is_word_char(s[0]) {
        lemma_word_len_run(s.drop_first());
        assert forall|k: int| 0 <= k < word_len(s) implies is_word_char(#[trigger] s[k]) by {
            if k > 0 {
                assert(s[k] == s.drop_first()[k - 1]);
            }
        }
    }
}

/// A run of word characters that ends at the end of `s` or at a character
/// that is not a word character is the word run of `s`.
pub proof fn lemma_word_len_of_run(s: Seq<char>, n: int)
    requires
        0 <= n <= s.len(),
        forall|k: int| 0 <= k < n ==> is_word_char(#[trigger] s[k]),
        n < s.len() ==> !is_word_char(s[n]),
    ensures
        word_len(s) == n,
    decreases n,
{
    if n > 0 {
        assert forall|k: int| 0 <= k < n - 1 implies is_word_char(#[trigger] s.drop_first()[k]) by {
            assert(s.drop_first()[k] == s[k + 1]);
        }
        lemma_word_len_of_run(s.drop_first(), n - 1);
    }
}

/// The front token of a line that starts with a non-blank character spans
/// at least one and at most all of its characters.
pub proof fn lemma_front_token_len(s: Seq<char>)
    requires
        s.len() > 0,
        !is_blank(s[0]),
    ensures
        1 <= front_token(s).1 <= s.len(),
{
    lemma_word_len_bound(s);
    assert(word_len(s) == 1 + word_len(s.drop_first()) || !is_word_char(s[0]));
}

fn is_blank_char(c: char) -> (b: bool)
    ensures
        b == is_blank(c),
{
    c == ' ' || c == '\t' || c == '\n' || c == '\x0C'
}

fn is_word_character(c: char) -> (b: bool)
    ensures
        b == is_word_char(c),
{
    !(c == ' ' || c == '\t' || c == '\n' || c == '\x0C' || c == ';' || c == '|' || c == '&'
        || c == '<' || c == '>')
}

/// The characters of `input`, in order.
fn input_chars(input: &str) -> (chars: Vec<char>)
    ensures
        chars@ == input@,
{
    broadcast use vstd::string::group_string_axioms;

    let mut chars: Vec<char> = Vec::new();
    for c in it: input.chars()
        invariant
            chars@ == it.seq().take(it.index() as int),
            it.seq() == input@,
    {
        chars.push(c);
    }
    chars
}

/// Lexes the token that starts at position `i` of the line, whose character
/// there is not a blank.
fn lex_front(input: &str, chars: &Vec<char>, i: usize) -> (res: (Token, usize))
    requires
        chars@ == input@,
        i < chars@.len(),
        !is_blank(chars@[i as int]),
    ensures
        res.0@ == front_token(chars@.skip(i as int)).0,
        res.1 == front_token(chars@.skip(i as int)).1,
{
    let ghost s = chars@.skip(i as int);
    let n = chars.len();
    let c = chars[i];
    let has_next = i + 1 < n;
    if c == '<' {
        (Token::RedirectOp(RedirectionType::In), 1)
    } else if c == '>' {
        if has_next && chars[i + 1] == '>' {
            (Token::RedirectOp(RedirectionType::Append), 2)
        } else {
            (Token::RedirectOp(RedirectionType::Out), 1)
        }
    } else if c == '2' && has_next && chars[i + 1] == '>' {
        (Token::RedirectOp(RedirectionType::Stderr), 2)
    } else if c == ';' {
        (Token::Separator, 1)
    } else if c == '&' {
        if has_next && chars[i + 1] == '&' {
            (Token::And, 2)
        } else {
            (Token::BackgroundOp, 1)
        }
    } else if c == '|' {
        if has_next && chars[i + 1] == '|' {
            (Token::Or, 2)
        } else {
            (Token::Pipe, 1)
        }
    } else {
        let mut j = i;
        while j < n && is_word_character(chars[j])
            invariant
                i <= j <= n,
                n == chars@.len(),
                forall|k: int| i <= k < j ==> is_word_char(#[trigger] chars@[k]),
            decreases n - j,
        {
            j = j + 1;
        }
        proof {
            assert forall|k: int| 0 <= k < j - i implies is_word_char(#[trigger] s[k]) by {
                assert(s[k] == chars@[i + k]);
            }
            lemma_word_len_of_run(s, j - i);
        }
        let word = String::from_str(input.substring_char(i, j));
        assert(word@ =~= s.take(j - i));
        (Token::Word(word), j - i)
    }
}

/// Converts a command line into its sequence of tokens.
pub fn tokenize_input(input: &str) -> (tokens: Vec<Token>)
    ensures
        tokens_model(tokens@) == spec_tokenize(input@),
{
    let chars = input_chars(input);
    let n = chars.len();
    let mut tokens: Vec<Token> = Vec::new();
    let mut i: usize = 0;
    assert(input@.skip(0) =~= input@);
    while i < n
        invariant
            n == chars@.len(),
            chars@ == input@,
            i <= n,
            spec_tokenize(input@) == tokens_model(tokens@) + spec_tokenize(input@.skip(i as int)),
        decreases n - i,
    {
        let ghost rest = input@.skip(i as int);
        if is_blank_char(chars[i]) {
            assert(rest.drop_first() =~= input@.skip(i + 1));
            i = i + 1;
        } else {
            let (tok, len) = lex_front(input, &chars, i);
            let ghost before = tokens@;
            tokens.push(tok);
            proof {
                lemma_front_token_len(rest);
                assert(rest.skip(len as int) =~= input@.skip(i + len));
                assert(tokens_model(tokens@) =~= tokens_model(before) + seq![tok@]);
            }
            i = i + len;
        }
    }
    assert(input@.skip(n as int) =~= Seq::<char>::empty());
    assert(tokens_model(tokens@) + spec_tokenize(Seq::<char>::empty()) =~= tokens_model(tokens@));
    tokens
}

} // verus!

verus! {

/// The text of a token.
pub open spec fn token_text(t: TokenModel) -> Seq<char> {
    match t {
        TokenModel::RedirectOp(kind) => crate::command::redirection_text(kind),
        TokenModel::Separator => ";"@,
        TokenModel::And => "&&"@,
        TokenModel::BackgroundOp => "&"@,
        TokenModel::Or => "||"@,
        TokenModel::Pipe => "|"@,
        TokenModel::Word(w) => w,
    }
}

/// A token that the lexer can produce: a word is a non-empty run of word
/// characters.
pub open spec fn is_lexable_token(t: TokenModel) -> bool {
    match t {
        TokenModel::Word(w) => w.len() > 0 && forall|k: int|
            0 <= k < w.len() ==> is_word_char(#[trigger] w[k]),
        _ => true,
    }
}

/// The texts of the tokens `ts`, each followed by a space.
pub open spec fn render_tokens(ts: Seq<TokenModel>) -> Seq<char>
    decreases ts.len(),
{
    if ts.len() == 0 {
        Seq::empty()
    } else {
        token_text(ts[0]) + " "@ + render_tokens(ts.drop_first())
    }
}

/// Blanks before a command line do not change its tokens.
proof fn lemma_tokenize_blank_front(c: char, r: Seq<char>)
    requires
        is_blank(c),
    ensures
        spec_tokenize(seq![c] + r) == spec_tokenize(r),
{
    assert((seq![c] + r).drop_first() =~= r);
}

/// A token followed by a space lexes back to itself, whatever follows.
pub proof fn lemma_tokenize_token_then_space(t: TokenModel, r: Seq<char>)
    requires
        is_lexable_token(t),
    ensures
        spec_tokenize(token_text(t) + " "@ + r) == seq![t] + spec_tokenize(r),
{
    reveal_strlit(" ");
    reveal_strlit("<");
    reveal_strlit(">");
    reveal_strlit(">>");
    reveal_strlit("2>");
    reveal_strlit(";");
    reveal_strlit("&&");
    reveal_strlit("&");
    reveal_strlit("||");
    reveal_strlit("|");
    let text = token_text(t);
    let s = text + " "@ + r;
    let n = text.len();
    assert(n > 0);
    assert(s[0] == text[0]);
    assert(!is_blank(s[0])) by {
        if let TokenModel::Word(w) = t {
            assert(is_word_char(w[0]));
        }
    }
    assert(s[n as int] == ' ');
    assert(forall|k: int| 0 <= k < n ==> s[k] == text[k]);
    if let TokenModel::Word(w) = t {
        lemma_word_len_of_run(s, n as int);
        assert(s.take(n as int) =~= w);
        assert(front_token(s) == (t, n));
    } else {
        assert(front_token(s) == (t, n));
    }
    assert(s.skip(n as int) =~= seq![' '] + r);
    lemma_tokenize_blank_front(' ', r);
}

/// Lexing the rendering of lexable tokens gives them back.
pub proof fn lemma_tokenize_render(ts: Seq<TokenModel>)
    requires
        forall|i: int| 0 <= i < ts.len() ==> is_lexable_token(#[trigger] ts[i]),
    ensures
        spec_tokenize(render_tokens(ts)) == ts,
    decreases ts.len(),
{
    if ts.len() == 0 {
        assert(spec_tokenize(Seq::<char>::empty()) =~= Seq::<TokenModel>::empty());
    } else {
        let rest = ts.drop_first();
        assert forall|i: int| 0 <= i < rest.len() implies is_lexable_token(#[trigger] rest[i]) by {
            assert(rest[i] == ts[i + 1]);
        }
        lemma_tokenize_render(rest);
        assert(is_lexable_token(ts[0]));
        lemma_tokenize_token_then_space(ts[0], render_tokens(rest));
        assert(seq![ts[0]] + rest =~= ts);
    }
}

/// Every token that the lexer produces is lexable: a word is a non-empty run
/// of word characters.
pub proof fn lemma_tokenize_lexable(s: Seq<char>)
    ensures
        forall|i: int|
            0 <= i < spec_tokenize(s).len() ==> is_lexable_token(#[trigger] spec_tokenize(s)[i]),
    decreases s.len(),
{
    if s.len() == 0 {
    } else if is_blank(s[0]) {
        lemma_tokenize_lexable(s.drop_first());
        assert(spec_tokenize(s) == spec_tokenize(s.drop_first()));
    } else {
        lemma_front_token_len(s);
        let (t, n) = front_token(s);
        lemma_tokenize_lexable(s.skip(n as int));
        lemma_word_len_run(s);
        if let TokenModel::Word(w) = t {
            assert forall|k: int| 0 <= k < w.len() implies is_word_char(#[trigger] w[k]) by {
                assert(w[k] == s[k]);
            }
        }
        let out = spec_tokenize(s);
        let tail = spec_tokenize(s.skip(n as int));
        assert(out == seq![t] + tail);
        assert(is_lexable_token(t));
        assert forall|i: int| 0 <= i < out.len() implies is_lexable_token(#[trigger] out[i]) by {
            if i > 0 {
                assert(out[i] == tail[i - 1]);
            }
        }
    }
}

/// Lexing is idempotent: the tokens of a line, written back separated by
/// spaces, lex to the same tokens.
pub proof fn law_tokenize_render_roundtrip(s: Seq<char>)
    ensures
        spec_tokenize(render_tokens(spec_tokenize(s))) == spec_tokenize(s),
{
    lemma_tokenize_lexable(s);
    lemma_tokenize_render(spec_tokenize(s));
}

} // verus!

verus! {

/// The texts of the tokens `ts`, one after the other.
pub open spec fn tokens_text(ts: Seq<TokenModel>) -> Seq<char>
    decreases ts.len(),
{
    if ts.len() == 0 {
        Seq::empty()
    } else {
        token_text(ts[0]) + tokens_text(ts.drop_first())
    }
}

/// Filtering keeps a sequence whose elements all pass.
proof fn lemma_filter_keeps_all(x: Seq<char>, pred: spec_fn(char) -> bool)
    requires
        forall|k: int| 0 <= k < x.len() ==> pred(#[trigger] x[k]),
    ensures
        x.filter(pred) == x,
    decreases x.len(),
{
    reveal(Seq::filter);
    if x.len() > 0 {
        lemma_filter_keeps_all(x.drop_last(), pred);
        assert(x.drop_last().push(x.last()) =~= x);
    }
}

/// Keeps every character but a space, a tab, a line feed or a form feed.
pub open spec fn non_blank() -> spec_fn(char) -> bool {
    |c: char| !(c == ' ' || c == '\t' || c == '\n' || c == '\x0C')
}

/// Filtering a single element keeps it exactly where it passes.
proof fn lemma_filter_single(c: char, pred: spec_fn(char) -> bool)
    ensures
        seq![c].filter(pred) == (if pred(c) {
            seq![c]
        } else {
            Seq::<char>::empty()
        }),
{
    reveal(Seq::filter);
    assert(seq![c].drop_last() =~= Seq::<char>::empty());
    assert(Seq::<char>::empty().filter(pred) == Seq::<char>::empty());
    assert(Seq::<char>::empty().push(c) =~= seq![c]);
}

/// The front token of a line spans the characters of its text, none of
/// which is a blank.
proof fn lemma_front_token_text(s: Seq<char>)
    requires
        s.len() > 0,
        !is_blank(s[0]),
    ensures
        token_text(front_token(s).0) == s.take(front_token(s).1 as int),
        forall|k: int|
            0 <= k < front_token(s).1 ==> (non_blank())(#[trigger] s.take(front_token(s).1 as int)[k]),
{
    reveal_strlit("<");
    reveal_strlit(">");
    reveal_strlit(">>");
    reveal_strlit("2>");
    reveal_strlit(";");
    reveal_strlit("&&");
    reveal_strlit("&");
    reveal_strlit("||");
    reveal_strlit("|");
    lemma_front_token_len(s);
    lemma_word_len_run(s);
    let (t, n) = front_token(s);
    assert(token_text(t) =~= s.take(n as int));
    assert forall|k: int| 0 <= k < n implies (non_blank())(#[trigger] s.take(n as int)[k]) by {
        if !(t is Word) {
            assert(s.take(n as int)[k] == token_text(t)[k]);
        }
    }
}

/// The tokens of a line hold all of its characters but the blanks: their
/// texts, one after the other, give the line without its spaces, tabs, line
/// feeds and form feeds, and every other character, in order.
pub proof fn law_tokens_keep_all_but_blanks(s: Seq<char>)
    ensures
        tokens_text(spec_tokenize(s)) == s.filter(non_blank()),
    decreases s.len(),
{
    let pred = non_blank();
    if s.len() == 0 {
        reveal(Seq::filter);
        assert(tokens_text(spec_tokenize(s)) =~= Seq::<char>::empty());
    } else if is_blank(s[0]) {
        law_tokens_keep_all_but_blanks(s.drop_first());
        assert(s =~= seq![s[0]] + s.drop_first());
        Seq::filter_distributes_over_add(seq![s[0]], s.drop_first(), pred);
        lemma_filter_single(s[0], pred);
        assert(seq![s[0]].filter(pred) + s.drop_first().filter(pred) =~= s.drop_first().filter(pred));
    } else {
        lemma_front_token_len(s);
        lemma_front_token_text(s);
        let (t, n) = front_token(s);
        let head = s.take(n as int);
        let rest = s.skip(n as int);
        law_tokens_keep_all_but_blanks(rest);
        lemma_filter_keeps_all(head, pred);
        assert(s =~= head + rest);
        Seq::filter_distributes_over_add(head, rest, pred);
        let out = spec_tokenize(s);
        assert(out == seq![t] + spec_tokenize(rest));
        assert(out.drop_first() =~= spec_tokenize(rest));
        assert(out[0] == t);
    }
}

/// A run of characters that are neither blanks nor one of `; | & < >` is a
/// single word: the lexer never splits it.
pub proof fn law_word_run_is_one_token(s: Seq<char>)
    requires
        s.len() > 0,
        forall|k: int|
            0 <= k < s.len() ==> !(#[trigger] s[k] == ' ' || s[k] == '\t' || s[k] == '\n' || s[k]
                == '\x0C' || s[k] == ';' || s[k] == '|' || s[k] == '&' || s[k] == '<' || s[k]
                == '>'),
    ensures
        spec_tokenize(s) == seq![TokenModel::Word(s)],
{
    assert forall|k: int| 0 <= k < s.len() implies is_word_char(#[trigger] s[k]) by {}
    lemma_word_len_of_run(s, s.len() as int);
    assert(s.take(s.len() as int) =~= s);
    assert(s.skip(s.len() as int) =~= Seq::<char>::empty());
    assert(spec_tokenize(s.skip(s.len() as int)) =~= Seq::<TokenModel>::empty());
    assert(seq![TokenModel::Word(s)] + Seq::<TokenModel>::empty() =~= seq![TokenModel::Word(s)]);
}

/// Each operator, followed by a space, lexes to its token: `<`, `>`, `>>`
/// and `2>` to the redirections in, out, append and error, `;` to the
/// separator, `&&` to and, `&` to the background operator, `||` to or and
/// `|` to the pipe, whatever follows.
pub proof fn law_operator_tokens(r: Seq<char>)
    ensures
        spec_tokenize("< "@ + r) == seq![TokenModel::RedirectOp(RedirectionType::In)] + spec_tokenize(r),
        spec_tokenize("> "@ + r) == seq![TokenModel::RedirectOp(RedirectionType::Out)] + spec_tokenize(r),
        spec_tokenize(">> "@ + r) == seq![TokenModel::RedirectOp(RedirectionType::Append)]
            + spec_tokenize(r),
        spec_tokenize("2> "@ + r) == seq![TokenModel::RedirectOp(RedirectionType::Stderr)]
            + spec_tokenize(r),
        spec_tokenize("; "@ + r) == seq![TokenModel::Separator] + spec_tokenize(r),
        spec_tokenize("&& "@ + r) == seq![TokenModel::And] + spec_tokenize(r),
        spec_tokenize("& "@ + r) == seq![TokenModel::BackgroundOp] + spec_tokenize(r),
        spec_tokenize("|| "@ + r) == seq![TokenModel::Or] + spec_tokenize(r),
        spec_tokenize("| "@ + r) == seq![TokenModel::Pipe] + spec_tokenize(r),
{
    reveal_strlit(" ");
    reveal_strlit("< ");
    reveal_strlit("> ");
    reveal_strlit(">> ");
    reveal_strlit("2> ");
    reveal_strlit("; ");
    reveal_strlit("&& ");
    reveal_strlit("& ");
    reveal_strlit("|| ");
    reveal_strlit("| ");
    reveal_strlit("<");
    reveal_strlit(">");
    reveal_strlit(">>");
    reveal_strlit("2>");
    reveal_strlit(";");
    reveal_strlit("&&");
    reveal_strlit("&");
    reveal_strlit("||");
    reveal_strlit("|");
    let ops = seq![
        TokenModel::RedirectOp(RedirectionType::In),
        TokenModel::RedirectOp(RedirectionType::Out),
        TokenModel::RedirectOp(RedirectionType::Append),
        TokenModel::RedirectOp(RedirectionType::Stderr),
        TokenModel::Separator,
        TokenModel::And,
        TokenModel::BackgroundOp,
        TokenModel::Or,
        TokenModel::Pipe,
    ];
    lemma_tokenize_token_then_space(ops[0], r);
    lemma_tokenize_token_then_space(ops[1], r);
    lemma_tokenize_token_then_space(ops[2], r);
    lemma_tokenize_token_then_space(ops[3], r);
    lemma_tokenize_token_then_space(ops[4], r);
    lemma_tokenize_token_then_space(ops[5], r);
    lemma_tokenize_token_then_space(ops[6], r);
    lemma_tokenize_token_then_space(ops[7], r);
    lemma_tokenize_token_then_space(ops[8], r);
    assert("< "@ + r =~= token_text(ops[0]) + " "@ + r);
    assert("> "@ + r =~= token_text(ops[1]) + " "@ + r);
    assert(">> "@ + r =~= token_text(ops[2]) + " "@ + r);
    assert("2> "@ + r =~= token_text(ops[3]) + " "@ + r);
    assert("; "@ + r =~= token_text(ops[4]) + " "@ + r);
    assert("&& "@ + r =~= token_text(ops[5]) + " "@ + r);
    assert("& "@ + r =~= token_text(ops[6]) + " "@ + r);
    assert("|| "@ + r =~= token_text(ops[7]) + " "@ + r);
    assert("| "@ + r =~= token_text(ops[8]) + " "@ + r);
}

} // verus!
