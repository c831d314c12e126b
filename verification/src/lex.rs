//! Tokens, the lexical modes and the lexer that drives them.

use vstd::prelude::*;
use vstd::string::*;

verus! {

/// A lexical token.
#[derive(Debug, PartialEq, Eq)]
pub enum Token {
    SemiColon,
    Colon,
    Comma,
    CurlyIn,
    CurlyOut,
    ParenIn,
    ParenOut,
    SquareIn,
    SquareOut,
    AngleIn,
    AngleOut,
    Word(String),
    FuncName(String),
    Class,
    Str(String),
    Native,
    Func,
}

/// The mathematical value of a [`Token`]: the same variants, carrying their
/// text as a sequence of characters.
pub enum TokenView {
    SemiColon,
    Colon,
    Comma,
    CurlyIn,
    CurlyOut,
    ParenIn,
    ParenOut,
    SquareIn,
    SquareOut,
    AngleIn,
    AngleOut,
    Word(Seq<char>),
    FuncName(Seq<char>),
    Class,
    Str(Seq<char>),
    Native,
    Func,
}

impl View for Token {
    type V = TokenView;

    open spec fn view(&self) -> TokenView {
        match self {
            Token::SemiColon => TokenView::SemiColon,
            Token::Colon => TokenView::Colon,
            Token::Comma => TokenView::Comma,
            Token::CurlyIn => TokenView::CurlyIn,
            Token::CurlyOut => TokenView::CurlyOut,
            Token::ParenIn => TokenView::ParenIn,
            Token::ParenOut => TokenView::ParenOut,
            Token::SquareIn => TokenView::SquareIn,
            Token::SquareOut => TokenView::SquareOut,
            Token::AngleIn => TokenView::AngleIn,
            Token::AngleOut => TokenView::AngleOut,
            Token::Word(w) => TokenView::Word(w@),
            Token::FuncName(n) => TokenView::FuncName(n@),
            Token::Class => TokenView::Class,
            Token::Str(s) => TokenView::Str(s@),
            Token::Native => TokenView::Native,
            Token::Func => TokenView::Func,
        }
    }
}

/// The text of the keyword `func`.
pub open spec fn func_word() -> Seq<char> {
    seq!['f', 'u', 'n', 'c']
}

/// The text of the keyword `class`.
pub open spec fn class_word() -> Seq<char> {
    seq!['c', 'l', 'a', 's', 's']
}

/// The text of the reserved word `native`.
pub open spec fn native_word() -> Seq<char> {
    seq!['n', 'a', 't', 'i', 'v', 'e']
}

impl TokenView {
    /// The text a token is written as: a structural symbol is its one
    /// character, a keyword is its word, and a word, function name or string
    /// is the text it carries.
    pub open spec fn text(self) -> Seq<char> {
        match self {
            TokenView::SemiColon => seq![';'],
            TokenView::Colon => seq![':'],
            TokenView::Comma => seq![','],
            TokenView::CurlyIn => seq!['{'],
            TokenView::CurlyOut => seq!['}'],
            TokenView::ParenIn => seq!['('],
            TokenView::ParenOut => seq![')'],
            TokenView::SquareIn => seq!['['],
            TokenView::SquareOut => seq![']'],
            TokenView::AngleIn => seq!['<'],
            TokenView::AngleOut => seq!['>'],
            TokenView::Word(w) => w,
            TokenView::FuncName(n) => n,
            TokenView::Class => class_word(),
            TokenView::Str(s) => s,
            TokenView::Native => native_word(),
            TokenView::Func => func_word(),
        }
    }
}

impl Clone for Token {
    /// A token of the same kind that carries the same text.
    fn clone(&self) -> (token: Token)
        ensures
            token@ == self@,
    {
        match self {
            Token::SemiColon => Token::SemiColon,
            Token::Colon => Token::Colon,
            Token::Comma => Token::Comma,
            Token::CurlyIn => Token::CurlyIn,
            Token::CurlyOut => Token::CurlyOut,
            Token::ParenIn => Token::ParenIn,
            Token::ParenOut => Token::ParenOut,
            Token::SquareIn => Token::SquareIn,
            Token::SquareOut => Token::SquareOut,
            Token::AngleIn => Token::AngleIn,
            Token::AngleOut => Token::AngleOut,
            Token::Word(word) => Token::Word(word.clone()),
            Token::FuncName(name) => Token::FuncName(name.clone()),
            Token::Class => Token::Class,
            Token::Str(s) => Token::Str(s.clone()),
            Token::Native => Token::Native,
            Token::Func => Token::Func,
        }
    }
}

impl Token {
    /// Renders the token as text.
    pub fn to_string(&self) -> (s: String)
        ensures
            s@ == self@.text(),
    {
        proof {
            reveal_strlit(";");
            reveal_strlit(":");
            reveal_strlit(",");
            reveal_strlit("{");
            reveal_strlit("}");
            reveal_strlit("(");
            reveal_strlit(")");
            reveal_strlit("[");
            reveal_strlit("]");
            reveal_strlit("<");
            reveal_strlit(">");
            reveal_strlit("class");
            reveal_strlit("native");
            reveal_strlit("func");
        }
        let s = match self {
            Token::SemiColon => String::from_str(";"),
            Token::Colon => String::from_str(":"),
            Token::Comma => String::from_str(","),
            Token::CurlyIn => String::from_str("{"),
            Token::CurlyOut => String::from_str("}"),
            Token::ParenIn => String::from_str("("),
            Token::ParenOut => String::from_str(")"),
            Token::SquareIn => String::from_str("["),
            Token::SquareOut => String::from_str("]"),
            Token::AngleIn => String::from_str("<"),
            Token::AngleOut => String::from_str(">"),
            Token::Word(word) => word.clone(),
            Token::FuncName(name) => name.clone(),
            Token::Class => String::from_str("class"),
            Token::Str(s) => s.clone(),
            Token::Native => String::from_str("native"),
            Token::Func => String::from_str("func"),
        };
        assert(s@ =~= self@.text());
        s
    }
}

/// Why a text cannot be lexed.
#[derive(Clone, Copy, Debug, PartialEq, Eq, Structural)]
pub enum LexError {
    /// The character cannot start a token.
    InvalidCharacter(char),
    /// The character is neither a letter nor the `(` that ends a function name.
    IllegalFunctionName(char),
}

/// The lexical mode the scanner is in.
#[derive(Clone, Copy, Debug, PartialEq, Eq, Structural)]
pub enum Filter {
    Basic,
    FuncFilter,
    ParamFilter,
    WordFilter,
    StrFilter,
    Comment,
    Multiline,
}

/// What a mode makes of one character.
#[derive(Debug, PartialEq, Eq)]
pub enum FilterResult {
    /// Emit one token and clear the buffer.
    New(Token),
    /// Emit several tokens at once and clear the buffer.
    Multiple(Vec<Token>),
    /// Append the character to the buffer.
    Keep,
    /// Discard the character, and the buffer with it.
    Drop,
}

/// The mathematical value of a [`FilterResult`].
pub enum FilterResultView {
    New(TokenView),
    Multiple(Seq<TokenView>),
    Keep,
    Drop,
}

/// The values of a sequence of tokens, in order.
pub open spec fn token_views(tokens: Seq<Token>) -> Seq<TokenView> {
    tokens.map_values(|t: Token| t@)
}

impl View for FilterResult {
    type V = FilterResultView;

    open spec fn view(&self) -> FilterResultView {
        match self {
            FilterResult::New(t) => FilterResultView::New(t@),
            FilterResult::Multiple(ts) => FilterResultView::Multiple(token_views(ts@)),
            FilterResult::Keep => FilterResultView::Keep,
            FilterResult::Drop => FilterResultView::Drop,
        }
    }
}

/// One dispatch of a character: the result, the mode to change to (if any),
/// and whether the character is consumed.
pub type Dispatch = (FilterResultView, Option<Filter>, bool);

/// Space, tab, line feed, carriage return or form feed.
pub open spec fn is_whitespace(c: char) -> bool {
    c == ' ' || c == '\t' || c == '\n' || c == '\r' || c == '\u{C}'
}

/// An ASCII letter.
pub open spec fn is_letter(c: char) -> bool {
    ('a' <= c && c <= 'z') || ('A' <= c && c <= 'Z')
}

/// The structural symbol that `c` stands for outside of any word, string or
/// parameter list, if it stands for one.
pub open spec fn symbol_of(c: char) -> Option<TokenView> {
    if c == ';' {
        Some(TokenView::SemiColon)
    } else if c == '{' {
        Some(TokenView::CurlyIn)
    } else if c == '}' {
        Some(TokenView::CurlyOut)
    } else if c == '(' {
        Some(TokenView::ParenIn)
    } else if c == ')' {
        Some(TokenView::ParenOut)
    } else if c == '[' {
        Some(TokenView::SquareIn)
    } else if c == ']' {
        Some(TokenView::SquareOut)
    } else if c == '<' {
        Some(TokenView::AngleIn)
    } else if c == '>' {
        Some(TokenView::AngleOut)
    } else {
        None
    }
}

impl Filter {
    /// The transition table: what this mode makes of the character `c` when
    /// the buffer holds `tok`.
    pub open spec fn transition(self, c: char, tok: Seq<char>) -> Result<Dispatch, LexError> {
        match self {
            Filter::Basic => {
                if is_whitespace(c) {
                    Ok((FilterResultView::Drop, None, true))
                } else if symbol_of(c) is Some {
                    Ok((FilterResultView::New(symbol_of(c)->0), None, true))
                } else if c == '"' {
                    Ok((FilterResultView::Drop, Some(Filter::StrFilter), true))
                } else if c == '#' {
                    Ok((FilterResultView::Keep, Some(Filter::Comment), true))
                } else if is_letter(c) {
                    Ok((FilterResultView::Keep, Some(Filter::WordFilter), true))
                } else {
                    Err(LexError::InvalidCharacter(c))
                }
            },
            Filter::WordFilter => {
                if is_letter(c) {
                    Ok((FilterResultView::Keep, None, true))
                } else if tok == func_word() {
                    Ok((FilterResultView::New(TokenView::Func), Some(Filter::FuncFilter), true))
                } else if tok == class_word() {
                    Ok((FilterResultView::New(TokenView::Class), Some(Filter::Basic), true))
                } else {
                    Ok((FilterResultView::New(TokenView::Word(tok)), Some(Filter::Basic), false))
                }
            },
            Filter::FuncFilter => {
                if c == '(' {
                    Ok(
                        (
                            FilterResultView::Multiple(
                                seq![TokenView::FuncName(tok), TokenView::ParenIn],
                            ),
                            Some(Filter::ParamFilter),
                            true,
                        ),
                    )
                } else if is_letter(c) {
                    Ok((FilterResultView::Keep, None, true))
                } else {
                    Err(LexError::IllegalFunctionName(c))
                }
            },
            Filter::ParamFilter => {
                if c == ':' || c == ',' {
                    Ok(
                        (
                            FilterResultView::Multiple(seq![TokenView::Word(tok), TokenView::Colon]),
                            None,
                            true,
                        ),
                    )
                } else if c == ')' {
                    Ok((FilterResultView::New(TokenView::ParenOut), Some(Filter::Basic), true))
                } else {
                    Ok((FilterResultView::Keep, None, true))
                }
            },
            Filter::StrFilter => {
                if c == '"' {
                    Ok((FilterResultView::New(TokenView::Str(tok)), Some(Filter::Basic), true))
                } else {
                    Ok((FilterResultView::Keep, None, true))
                }
            },
            Filter::Comment => {
                if c == '\n' || c == '\r' {
                    Ok((FilterResultView::Drop, Some(Filter::Basic), true))
                } else if tok == seq!['#', '#'] {
                    Ok((FilterResultView::Drop, Some(Filter::Multiline), true))
                } else {
                    Ok((FilterResultView::Drop, None, true))
                }
            },
            Filter::Multiline => {
                if tok.len() > 0 && tok.last() == '#' && c == '#' {
                    Ok((FilterResultView::Drop, Some(Filter::Basic), true))
                } else {
                    Ok((FilterResultView::Drop, None, true))
                }
            },
        }
    }

    /// Dispatches the character `c` in this mode, with `tok` the buffer so
    /// far, as the transition table says.
    pub fn filter(&self, c: char, tok: String) -> (r: Result<
        (FilterResult, Option<Filter>, bool),
        LexError,
    >)
        ensures
            match self.transition(c, tok@) {
                Ok(d) => r is Ok && r->Ok_0.0@ == d.0 && r->Ok_0.1 == d.1 && r->Ok_0.2 == d.2,
                Err(e) => r == Err::<(FilterResult, Option<Filter>, bool), LexError>(e),
            },
    {
        match self {
            Filter::Basic => match c {
                ' ' | '\t' | '\n' | '\r' | '\u{C}' => Ok((FilterResult::Drop, None, true)),
                ';' => Ok((FilterResult::New(Token::SemiColon), None, true)),
                '{' => Ok((FilterResult::New(Token::CurlyIn), None, true)),
                '}' => Ok((FilterResult::New(Token::CurlyOut), None, true)),
                '(' => Ok((FilterResult::New(Token::ParenIn), None, true)),
                ')' => Ok((FilterResult::New(Token::ParenOut), None, true)),
                '[' => Ok((FilterResult::New(Token::SquareIn), None, true)),
                ']' => Ok((FilterResult::New(Token::SquareOut), None, true)),
                '<' => Ok((FilterResult::New(Token::AngleIn), None, true)),
                '>' => Ok((FilterResult::New(Token::AngleOut), None, true)),
                '"' => Ok((FilterResult::Drop, Some(Filter::StrFilter), true)),
                '#' => Ok((FilterResult::Keep, Some(Filter::Comment), true)),
                _ => {
                    if is_ascii_letter(c) {
                        Ok((FilterResult::Keep, Some(Filter::WordFilter), true))
                    } else {
                        Err(LexError::InvalidCharacter(c))
                    }
                },
            },
            Filter::FuncFilter => match c {
                '(' => {
                    let tokens = vec![Token::FuncName(tok), Token::ParenIn];
                    assert(token_views(tokens@) =~= seq![
                        TokenView::FuncName(tok@),
                        TokenView::ParenIn,
                    ]);
                    Ok((FilterResult::Multiple(tokens), Some(Filter::ParamFilter), true))
                },
                _ => {
                    if is_ascii_letter(c) {
                        Ok((FilterResult::Keep, None, true))
                    } else {
                        Err(LexError::IllegalFunctionName(c))
                    }
                },
            },
            Filter::ParamFilter => match c {
                ':' | ',' => {
                    let tokens = vec![Token::Word(tok), Token::Colon];
                    assert(token_views(tokens@) =~= seq![TokenView::Word(tok@), TokenView::Colon]);
                    Ok((FilterResult::Multiple(tokens), None, true))
                },
                ')' => Ok((FilterResult::New(Token::ParenOut), Some(Filter::Basic), true)),
                _ => Ok((FilterResult::Keep, None, true)),
            },
            Filter::WordFilter => {
                proof {
                    reveal_strlit("func");
                    reveal_strlit("class");
                    assert("func"@ =~= func_word());
                    assert("class"@ =~= class_word());
                }
                if is_ascii_letter(c) {
                    Ok((FilterResult::Keep, None, true))
                } else if text_is(&tok, "func") {
                    Ok((FilterResult::New(Token::Func), Some(Filter::FuncFilter), true))
                } else if text_is(&tok, "class") {
                    Ok((FilterResult::New(Token::Class), Some(Filter::Basic), true))
                } else {
                    Ok((FilterResult::New(Token::Word(tok)), Some(Filter::Basic), false))
                }
            },
            Filter::StrFilter => match c {
                '"' => Ok((FilterResult::New(Token::Str(tok)), Some(Filter::Basic), true)),
                _ => Ok((FilterResult::Keep, None, true)),
            },
            Filter::Comment => match c {
                '\n' | '\r' => Ok((FilterResult::Drop, Some(Filter::Basic), true)),
                _ => {
                    proof {
                        reveal_strlit("##");
                        assert("##"@ =~= seq!['#', '#']);
                    }
                    if text_is(&tok, "##") {
                        Ok((FilterResult::Drop, Some(Filter::Multiline), true))
                    } else {
                        Ok((FilterResult::Drop, None, true))
                    }
                },
            },
            Filter::Multiline => {
                if c == '#' && ends_with_hash(&tok) {
                    Ok((FilterResult::Drop, Some(Filter::Basic), true))
                } else {
                    Ok((FilterResult::Drop, None, true))
                }
            },
        }
    }
}

/// Whether `c` is an ASCII letter.
fn is_ascii_letter(c: char) -> (b: bool)
    ensures
        b == is_letter(c),
{
    ('a' <= c && c <= 'z') || ('A' <= c && c <= 'Z')
}

/// Whether the buffer holds exactly the text `word`.
fn text_is(tok: &String, word: &str) -> (b: bool)
    ensures
        b == (tok@ == word@),
{
    *tok == String::from_str(word)
}

/// Whether the last character of the buffer is `#`.
fn ends_with_hash(tok: &String) -> (b: bool)
    ensures
        b == (tok@.len() > 0 && tok@.last() == '#'),
{
    let n: usize = tok.as_str().unicode_len();
    n > 0 && tok.as_str().get_char(n - 1) == '#'
}

/// The scanner between two characters: its mode, the buffer, and the tokens
/// emitted so far.
pub struct LexState {
    pub filter: Filter,
    pub buffer: Seq<char>,
    pub tokens: Seq<TokenView>,
}

impl LexState {
    /// The scanner before the first character, in the mode `filter`.
    pub open spec fn start(filter: Filter) -> LexState {
        LexState { filter, buffer: Seq::empty(), tokens: Seq::empty() }
    }

    /// The state after one dispatch of `c` has given `d`: a kept character
    /// joins the buffer, every other result empties it; emitted tokens follow
    /// those already there; the mode changes if `d` names one.
    pub open spec fn apply(self, c: char, d: Dispatch) -> LexState {
        LexState {
            filter: match d.1 {
                Some(f) => f,
                None => self.filter,
            },
            buffer: match d.0 {
                FilterResultView::Keep => self.buffer.push(c),
                _ => Seq::empty(),
            },
            tokens: match d.0 {
                FilterResultView::New(t) => self.tokens.push(t),
                FilterResultView::Multiple(ts) => self.tokens + ts,
                _ => self.tokens,
            },
        }
    }

    /// The state once `c` is consumed: `c` is dispatched, and dispatched
    /// again in the state that results for as long as it is left unconsumed.
    pub open spec fn feed(self, c: char) -> Result<LexState, LexError>
        decreases
            (if self.filter == Filter::WordFilter {
                1nat
            } else {
                0nat
            }),
    {
        match self.filter.transition(c, self.buffer) {
            Err(e) => Err(e),
            Ok(d) => if d.2 {
                Ok(self.apply(c, d))
            } else {
                self.apply(c, d).feed(c)
            },
        }
    }

    /// The state after the characters of `text` have been fed in order, or
    /// the error of the first character that cannot be fed.
    pub open spec fn run(self, text: Seq<char>) -> Result<LexState, LexError>
        decreases text.len(),
    {
        if text.len() == 0 {
            Ok(self)
        } else {
            match self.run(text.drop_last()) {
                Err(e) => Err(e),
                Ok(s) => s.feed(text.last()),
            }
        }
    }
}

/// Once a prefix of the text has failed, the whole text fails in the same way.
pub proof fn lemma_run_error_persists(s: LexState, text: Seq<char>, n: int)
    requires
        0 <= n <= text.len(),
        s.run(text.take(n)) is Err,
    ensures
        s.run(text) == s.run(text.take(n)),
    decreases text.len() - n,
{
    if n == text.len() {
        assert(text.take(n) =~= text);
    } else {
        assert(text.take(n + 1).drop_last() =~= text.take(n));
        lemma_run_error_persists(s, text, n + 1);
    }
}

/// A lexer: the text to scan, and the mode the scanner is in.
pub struct Lexer {
    contents: String,
    filter: Filter,
}

/// The mathematical value of a [`Lexer`].
pub struct LexerView {
    pub contents: Seq<char>,
    pub filter: Filter,
}

impl LexerView {
    /// What lexing does: the run of the scanner over the whole text, from
    /// the lexer's mode and an empty buffer.
    pub open spec fn lex(self) -> Result<LexState, LexError> {
        LexState::start(self.filter).run(self.contents)
    }
}

impl View for Lexer {
    type V = LexerView;

    closed spec fn view(&self) -> LexerView {
        LexerView { contents: self.contents@, filter: self.filter }
    }
}

/// `String::push` of the standard library appends one character to the end
/// of the string and leaves the rest as it was.
pub assume_specification[ std::string::String::push ](s: &mut std::string::String, c: char)
    ensures
        final(s)@ == old(s)@.push(c),
;

impl Lexer {
    /// A lexer over `contents` that starts in the mode `filter`.
    pub fn new(contents: String, filter: Filter) -> (lexer: Lexer)
        ensures
            lexer@ == (LexerView { contents: contents@, filter }),
    {
        Lexer { contents, filter }
    }

    /// Lexes the whole text and returns its tokens in source order. The
    /// lexer is left in the mode in which the scan ended. A character that
    /// the current mode cannot take ends the scan with its error, and the
    /// lexer stays as it was.
    pub fn lex(&mut self) -> (r: Result<Vec<Token>, LexError>)
        ensures
            match old(self)@.lex() {
                Ok(end) => {
                    &&& r is Ok
                    &&& token_views(r->Ok_0@) == end.tokens
                    &&& final(self)@ == (LexerView {
                        contents: old(self)@.contents,
                        filter: end.filter,
                    })
                },
                Err(e) => r == Err::<Vec<Token>, LexError>(e) && final(self)@ == old(self)@,
            },
    {
        let mut filter = self.filter;
        let mut output: Vec<Token> = Vec::new();
        let mut token = String::new();
        let ghost start = LexState::start(filter);
        let ghost text = self.contents@;
        assert(text.take(0) =~= Seq::<char>::empty());
        assert(token_views(output@) =~= Seq::<TokenView>::empty());
        for ch in it: self.contents.as_str().chars()
            invariant
                it.seq() == text,
                text == self.contents@,
                *self == *old(self),
                start == LexState::start(old(self)@.filter),
                start.run(text.take(it.index())) == Ok::<LexState, LexError>(
                    LexState { filter, buffer: token@, tokens: token_views(output@) },
                ),
        {
            let ghost before = LexState { filter, buffer: token@, tokens: token_views(output@) };
            let mut next = false;
            while !next
                invariant
                    if next {
                        before.feed(ch) == Ok::<LexState, LexError>(
                            LexState { filter, buffer: token@, tokens: token_views(output@) },
                        )
                    } else {
                        before.feed(ch) == (LexState {
                            filter,
                            buffer: token@,
                            tokens: token_views(output@),
                        }).feed(ch)
                    },
                    0 <= it.index() < text.len(),
                    ch == text[it.index()],
                    text == self.contents@,
                    *self == *old(self),
                    start == LexState::start(old(self)@.filter),
                    start.run(text.take(it.index())) == Ok::<LexState, LexError>(before),
                decreases
                    (if next {
                        0nat
                    } else if filter == Filter::WordFilter {
                        2nat
                    } else {
                        1nat
                    }),
            {
                let ghost cur = LexState { filter, buffer: token@, tokens: token_views(output@) };
                match filter.filter(ch, token.clone()) {
                    Err(e) => {
                        proof {
                            assert(text.take(it.index() + 1).drop_last() =~= text.take(it.index()));
                            lemma_run_error_persists(start, text, it.index() + 1);
                        }
                        return Err(e);
                    },
                    Ok((result, change, consumed)) => {
                        let ghost dispatch = (result@, change, consumed);
                        match result {
                            FilterResult::New(t) => {
                                output.push(t);
                                token = String::new();
                                assert(token_views(output@) =~= cur.tokens.push(t@));
                            },
                            FilterResult::Multiple(tokens) => {
                                let mut tokens = tokens;
                                let ghost emitted = token_views(tokens@);
                                output.append(&mut tokens);
                                token = String::new();
                                assert(token_views(output@) =~= cur.tokens + emitted);
                            },
                            FilterResult::Keep => {
                                token.push(ch);
                            },
                            FilterResult::Drop => {
                                token = String::new();
                            },
                        }
                        match change {
                            Some(f) => {
                                filter = f;
                            },
                            None => {},
                        }
                        next = consumed;
                        assert((LexState {
                            filter,
                            buffer: token@,
                            tokens: token_views(output@),
                        }) =~~= cur.apply(ch, dispatch));
                    },
                }
            }
            assert(text.take(it.index() + 1).drop_last() =~= text.take(it.index()));
        }
        assert(text.take(text.len() as int) =~= text);
        self.filter = filter;
        Ok(output)
    }
}

} // verus!
