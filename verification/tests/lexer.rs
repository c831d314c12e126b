use silicon::lex::{Filter, FilterResult, LexError, Lexer, Token};

fn lex_from(filter: Filter, text: &str) -> Result<Vec<Token>, LexError> {
    Lexer::new(text.to_string(), filter).lex()
}

fn lex(text: &str) -> Result<Vec<Token>, LexError> {
    lex_from(Filter::Basic, text)
}

fn word(text: &str) -> Token {
    Token::Word(text.to_string())
}

#[test]
fn function_header_lexes_to_its_tokens() {
    let tokens = lex("func add(a:int,b:int){}").unwrap();
    assert_eq!(
        tokens,
        vec![
            Token::Func,
            Token::FuncName("add".to_string()),
            Token::ParenIn,
            word("a"),
            Token::Colon,
            word("int"),
            Token::Colon,
            word("b"),
            Token::Colon,
            Token::ParenOut,
            Token::CurlyIn,
            Token::CurlyOut,
        ]
    );
}

#[test]
fn comma_in_a_parameter_list_gives_a_colon() {
    let tokens = lex("func f(a,b,)").unwrap();
    assert_eq!(
        tokens,
        vec![
            Token::Func,
            Token::FuncName("f".to_string()),
            Token::ParenIn,
            word("a"),
            Token::Colon,
            word("b"),
            Token::Colon,
            Token::ParenOut,
        ]
    );
    assert!(!tokens.contains(&Token::Comma));
}

#[test]
fn closing_parenthesis_discards_the_pending_parameter_text() {
    let tokens = lex("func f(a:int)").unwrap();
    assert_eq!(
        tokens,
        vec![
            Token::Func,
            Token::FuncName("f".to_string()),
            Token::ParenIn,
            word("a"),
            Token::Colon,
            Token::ParenOut,
        ]
    );
}

#[test]
fn string_literal_lexes_to_one_token() {
    assert_eq!(lex("\"hello\""), Ok(vec![Token::Str("hello".to_string())]));
}

#[test]
fn string_literal_keeps_every_character() {
    assert_eq!(
        lex("\"a b;#(\u{e9}\n\""),
        Ok(vec![Token::Str("a b;#(\u{e9}\n".to_string())])
    );
    assert_eq!(lex("\"\""), Ok(vec![Token::Str(String::new())]));
}

#[test]
fn comment_lexes_to_nothing() {
    assert_eq!(lex("## comment ##"), Ok(vec![]));
}

#[test]
fn comment_ends_at_the_line_break() {
    assert_eq!(lex("# note\nabc;"), Ok(vec![word("abc"), Token::SemiColon]));
    assert_eq!(lex("# note\rabc;"), Ok(vec![word("abc"), Token::SemiColon]));
    assert_eq!(lex("## note ## abc;\n;"), Ok(vec![Token::SemiColon]));
}

#[test]
fn empty_text_lexes_to_nothing() {
    assert_eq!(lex(""), Ok(vec![]));
    assert_eq!(lex(" \t\n\r\u{c}"), Ok(vec![]));
}

#[test]
fn every_structural_symbol_lexes_to_itself() {
    let symbols = vec![
        Token::SemiColon,
        Token::CurlyIn,
        Token::CurlyOut,
        Token::ParenIn,
        Token::ParenOut,
        Token::SquareIn,
        Token::SquareOut,
        Token::AngleIn,
        Token::AngleOut,
    ];
    for symbol in symbols {
        assert_eq!(lex(&symbol.to_string()), Ok(vec![symbol]));
    }
}

#[test]
fn symbols_lex_in_source_order() {
    assert_eq!(
        lex(";{}()[]<>"),
        Ok(vec![
            Token::SemiColon,
            Token::CurlyIn,
            Token::CurlyOut,
            Token::ParenIn,
            Token::ParenOut,
            Token::SquareIn,
            Token::SquareOut,
            Token::AngleIn,
            Token::AngleOut,
        ])
    );
}

#[test]
fn colon_and_comma_are_not_valid_outside_a_parameter_list() {
    assert_eq!(lex(&Token::Colon.to_string()), Err(LexError::InvalidCharacter(':')));
    assert_eq!(lex(&Token::Comma.to_string()), Err(LexError::InvalidCharacter(',')));
}

#[test]
fn keyword_needs_a_character_after_it() {
    assert_eq!(lex("func"), Ok(vec![]));
    assert_eq!(lex("class"), Ok(vec![]));
    assert_eq!(lex("func "), Ok(vec![Token::Func]));
    assert_eq!(lex("class "), Ok(vec![Token::Class]));
    assert_eq!(lex(&(Token::Class.to_string() + "\n")), Ok(vec![Token::Class]));
}

#[test]
fn keyword_consumes_the_character_that_ends_it() {
    assert_eq!(lex("class;"), Ok(vec![Token::Class]));
    assert_eq!(lex("class;;"), Ok(vec![Token::Class, Token::SemiColon]));
}

#[test]
fn word_leaves_the_character_that_ends_it() {
    assert_eq!(lex("abc;"), Ok(vec![word("abc"), Token::SemiColon]));
    assert_eq!(lex("native "), Ok(vec![word("native")]));
    assert_eq!(lex("Func "), Ok(vec![word("Func")]));
    assert_eq!(lex("a b"), Ok(vec![word("a")]));
}

#[test]
fn word_ended_by_an_invalid_character_fails() {
    assert_eq!(lex("abc1"), Err(LexError::InvalidCharacter('1')));
    assert_eq!(lex("abc:"), Err(LexError::InvalidCharacter(':')));
}

#[test]
fn invalid_character_is_reported() {
    assert_eq!(lex("a = b"), Err(LexError::InvalidCharacter('=')));
    assert_eq!(lex("7"), Err(LexError::InvalidCharacter('7')));
    assert_eq!(lex("\u{e9}"), Err(LexError::InvalidCharacter('\u{e9}')));
}

#[test]
fn illegal_function_name_is_reported() {
    assert_eq!(lex("func add1()"), Err(LexError::IllegalFunctionName('1')));
    assert_eq!(lex("func  add()"), Err(LexError::IllegalFunctionName(' ')));
    assert_eq!(lex("func add ()"), Err(LexError::IllegalFunctionName(' ')));
}

#[test]
fn first_error_wins() {
    assert_eq!(lex("func a1 = 2"), Err(LexError::IllegalFunctionName('1')));
    assert_eq!(lex("= func a1"), Err(LexError::InvalidCharacter('=')));
}

#[test]
fn lexing_the_same_text_twice_gives_the_same_tokens() {
    let text = "class Foo { func bar(x:int,y:int) { \"s\" } } # done\n";
    let first = lex(text);
    let second = lex(text);
    assert_eq!(first, second);
    assert!(first.is_ok());

    let mut lexer = Lexer::new(text.to_string(), Filter::Basic);
    let once = lexer.lex();
    let again = lexer.lex();
    assert_eq!(once, first);
    assert_eq!(again, first);
}

#[test]
fn tokens_of_a_prefix_begin_the_tokens_of_the_text() {
    let text = "class Foo { func bar(x:int) { \"s\" ; } }";
    let whole = lex(text).unwrap();
    assert_eq!(whole.len(), 14);
    for n in 0..=text.len() {
        let part = lex(&text[..n]).unwrap();
        assert!(part.len() <= whole.len());
        assert_eq!(part[..], whole[..part.len()]);
    }
}

#[test]
fn lexer_resumes_in_the_mode_it_ended_in() {
    let mut lexer = Lexer::new("\"abc".to_string(), Filter::Basic);
    assert_eq!(lexer.lex(), Ok(vec![]));
    assert_eq!(lexer.lex(), Ok(vec![Token::Str(String::new())]));
}

#[test]
fn failed_lex_leaves_the_lexer_in_its_mode() {
    let mut lexer = Lexer::new("\"a\" func 1".to_string(), Filter::Basic);
    assert_eq!(lexer.lex(), Err(LexError::IllegalFunctionName('1')));
    assert_eq!(lexer.lex(), Err(LexError::IllegalFunctionName('1')));
}

#[test]
fn lexer_starts_in_the_given_mode() {
    assert_eq!(lex_from(Filter::StrFilter, "ab\""), Ok(vec![Token::Str("ab".to_string())]));
    assert_eq!(
        lex_from(Filter::FuncFilter, "go("),
        Ok(vec![Token::FuncName("go".to_string()), Token::ParenIn])
    );
    assert_eq!(lex_from(Filter::ParamFilter, "x:"), Ok(vec![word("x"), Token::Colon]));
    assert_eq!(lex_from(Filter::WordFilter, "x;"), Ok(vec![word("x"), Token::SemiColon]));
    assert_eq!(lex_from(Filter::Comment, "x\n;"), Ok(vec![Token::SemiColon]));
    assert_eq!(lex_from(Filter::Multiline, "x#;"), Ok(vec![]));
}

#[test]
fn tokens_render_as_their_text() {
    assert_eq!(Token::SemiColon.to_string(), ";");
    assert_eq!(Token::Colon.to_string(), ":");
    assert_eq!(Token::Comma.to_string(), ",");
    assert_eq!(Token::CurlyIn.to_string(), "{");
    assert_eq!(Token::CurlyOut.to_string(), "}");
    assert_eq!(Token::ParenIn.to_string(), "(");
    assert_eq!(Token::ParenOut.to_string(), ")");
    assert_eq!(Token::SquareIn.to_string(), "[");
    assert_eq!(Token::SquareOut.to_string(), "]");
    assert_eq!(Token::AngleIn.to_string(), "<");
    assert_eq!(Token::AngleOut.to_string(), ">");
    assert_eq!(Token::Class.to_string(), "class");
    assert_eq!(Token::Func.to_string(), "func");
    assert_eq!(Token::Native.to_string(), "native");
    assert_eq!(Token::Word("abc".to_string()).to_string(), "abc");
    assert_eq!(Token::FuncName("add".to_string()).to_string(), "add");
    assert_eq!(Token::Str("a \"b\"".to_string()).to_string(), "a \"b\"");
}

#[test]
fn cloned_token_equals_its_source() {
    let tokens = lex("class Foo { func bar(x:int) { \"s\" ; } }").unwrap();
    for token in &tokens {
        assert_eq!(&token.clone(), token);
        assert_eq!(token.clone().to_string(), token.to_string());
    }
    assert_eq!(Token::Native.clone(), Token::Native);
    assert_eq!(Token::Comma.clone(), Token::Comma);
}

fn dispatch(
    filter: Filter,
    c: char,
    buffer: &str,
) -> Result<(FilterResult, Option<Filter>, bool), LexError> {
    filter.filter(c, buffer.to_string())
}

#[test]
fn basic_drops_whitespace() {
    for c in [' ', '\t', '\n', '\r', '\u{c}'] {
        assert_eq!(dispatch(Filter::Basic, c, ""), Ok((FilterResult::Drop, None, true)));
    }
}

#[test]
fn basic_emits_each_symbol() {
    let rows = vec![
        (';', Token::SemiColon),
        ('{', Token::CurlyIn),
        ('}', Token::CurlyOut),
        ('(', Token::ParenIn),
        (')', Token::ParenOut),
        ('[', Token::SquareIn),
        (']', Token::SquareOut),
        ('<', Token::AngleIn),
        ('>', Token::AngleOut),
    ];
    for (c, token) in rows {
        assert_eq!(dispatch(Filter::Basic, c, ""), Ok((FilterResult::New(token), None, true)));
    }
}

#[test]
fn basic_opens_strings_comments_and_words() {
    assert_eq!(
        dispatch(Filter::Basic, '"', ""),
        Ok((FilterResult::Drop, Some(Filter::StrFilter), true))
    );
    assert_eq!(
        dispatch(Filter::Basic, '#', ""),
        Ok((FilterResult::Keep, Some(Filter::Comment), true))
    );
    for c in ['a', 'z', 'A', 'Z', 'm'] {
        assert_eq!(
            dispatch(Filter::Basic, c, ""),
            Ok((FilterResult::Keep, Some(Filter::WordFilter), true))
        );
    }
}

#[test]
fn basic_rejects_everything_else() {
    for c in [':', ',', '0', '_', '=', '@', '`', '\u{e9}', '\u{0}'] {
        assert_eq!(dispatch(Filter::Basic, c, ""), Err(LexError::InvalidCharacter(c)));
    }
}

#[test]
fn word_filter_keeps_letters() {
    assert_eq!(dispatch(Filter::WordFilter, 'x', "fun"), Ok((FilterResult::Keep, None, true)));
    assert_eq!(dispatch(Filter::WordFilter, 'c', "fun"), Ok((FilterResult::Keep, None, true)));
    assert_eq!(dispatch(Filter::WordFilter, 's', "func"), Ok((FilterResult::Keep, None, true)));
}

#[test]
fn word_filter_ends_keywords_and_consumes() {
    assert_eq!(
        dispatch(Filter::WordFilter, ' ', "func"),
        Ok((FilterResult::New(Token::Func), Some(Filter::FuncFilter), true))
    );
    assert_eq!(
        dispatch(Filter::WordFilter, '{', "class"),
        Ok((FilterResult::New(Token::Class), Some(Filter::Basic), true))
    );
}

#[test]
fn word_filter_ends_a_word_without_consuming() {
    assert_eq!(
        dispatch(Filter::WordFilter, ';', "abc"),
        Ok((FilterResult::New(word("abc")), Some(Filter::Basic), false))
    );
    assert_eq!(
        dispatch(Filter::WordFilter, '=', "funcs"),
        Ok((FilterResult::New(word("funcs")), Some(Filter::Basic), false))
    );
    assert_eq!(
        dispatch(Filter::WordFilter, ' ', ""),
        Ok((FilterResult::New(word("")), Some(Filter::Basic), false))
    );
}

#[test]
fn func_filter_follows_its_rows() {
    assert_eq!(
        dispatch(Filter::FuncFilter, '(', "add"),
        Ok((
            FilterResult::Multiple(vec![Token::FuncName("add".to_string()), Token::ParenIn]),
            Some(Filter::ParamFilter),
            true
        ))
    );
    assert_eq!(dispatch(Filter::FuncFilter, 'd', "ad"), Ok((FilterResult::Keep, None, true)));
    for c in [' ', '1', ')', '_'] {
        assert_eq!(dispatch(Filter::FuncFilter, c, "ad"), Err(LexError::IllegalFunctionName(c)));
    }
}

#[test]
fn param_filter_follows_its_rows() {
    for c in [':', ','] {
        assert_eq!(
            dispatch(Filter::ParamFilter, c, "a"),
            Ok((FilterResult::Multiple(vec![word("a"), Token::Colon]), None, true))
        );
    }
    assert_eq!(
        dispatch(Filter::ParamFilter, ')', "int"),
        Ok((FilterResult::New(Token::ParenOut), Some(Filter::Basic), true))
    );
    for c in ['a', ' ', '1', '(', '#', '"'] {
        assert_eq!(dispatch(Filter::ParamFilter, c, "a"), Ok((FilterResult::Keep, None, true)));
    }
}

#[test]
fn str_filter_follows_its_rows() {
    assert_eq!(
        dispatch(Filter::StrFilter, '"', "hello"),
        Ok((FilterResult::New(Token::Str("hello".to_string())), Some(Filter::Basic), true))
    );
    for c in ['a', ' ', '\n', '#', ';'] {
        assert_eq!(dispatch(Filter::StrFilter, c, "he"), Ok((FilterResult::Keep, None, true)));
    }
}

#[test]
fn comment_follows_its_rows() {
    for c in ['\n', '\r'] {
        assert_eq!(
            dispatch(Filter::Comment, c, "##"),
            Ok((FilterResult::Drop, Some(Filter::Basic), true))
        );
    }
    assert_eq!(
        dispatch(Filter::Comment, 'x', "##"),
        Ok((FilterResult::Drop, Some(Filter::Multiline), true))
    );
    assert_eq!(dispatch(Filter::Comment, 'x', "#"), Ok((FilterResult::Drop, None, true)));
    assert_eq!(dispatch(Filter::Comment, '#', "#"), Ok((FilterResult::Drop, None, true)));
    assert_eq!(dispatch(Filter::Comment, 'x', "###"), Ok((FilterResult::Drop, None, true)));
    assert_eq!(dispatch(Filter::Comment, 'x', ""), Ok((FilterResult::Drop, None, true)));
}

#[test]
fn multiline_follows_its_rows() {
    assert_eq!(
        dispatch(Filter::Multiline, '#', "abc#"),
        Ok((FilterResult::Drop, Some(Filter::Basic), true))
    );
    assert_eq!(
        dispatch(Filter::Multiline, '#', "#"),
        Ok((FilterResult::Drop, Some(Filter::Basic), true))
    );
    assert_eq!(dispatch(Filter::Multiline, '#', "abc"), Ok((FilterResult::Drop, None, true)));
    assert_eq!(dispatch(Filter::Multiline, 'x', "abc#"), Ok((FilterResult::Drop, None, true)));
    assert_eq!(dispatch(Filter::Multiline, '#', ""), Ok((FilterResult::Drop, None, true)));
    assert_eq!(dispatch(Filter::Multiline, '#', "#\u{e9}"), Ok((FilterResult::Drop, None, true)));
}
