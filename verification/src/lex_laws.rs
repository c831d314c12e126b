//! What holds of the lexer as a whole: how its runs compose, and what comes
//! back when the text of a token is lexed again.

use crate::lex::{class_word, func_word, is_letter, lemma_run_error_persists, symbol_of};
use crate::lex::{Filter, LexError, LexState, LexerView, TokenView};
use vstd::prelude::*;

verus! {

/// Feeding one more character continues the run of the text before it.
pub proof fn lemma_run_push(s: LexState, text: Seq<char>, c: char)
    ensures
        s.run(text.push(c)) == (match s.run(text) {
            Ok(m) => m.feed(c),
            Err(e) => Err(e),
        }),
{
    assert(text.push(c).drop_last() =~= text);
}

/// A character is dispatched at most twice: a dispatch that does not consume
/// it ends a word and hands it to the basic mode, which consumes or rejects
/// whatever it is given.
pub proof fn lemma_second_dispatch_consumes(s: LexState, c: char)
    ensures
        match s.filter.transition(c, s.buffer) {
            Ok(d) => !d.2 ==> {
                let next = s.apply(c, d);
                &&& s.filter == Filter::WordFilter
                &&& next.filter == Filter::Basic
                &&& next.filter.transition(c, next.buffer) matches Ok(again) ==> again.2
            },
            Err(_) => true,
        },
{
}

/// Feeding a character emits tokens after those already emitted, and takes
/// none back.
pub proof fn lemma_feed_appends(s: LexState, c: char)
    ensures
        s.feed(c) matches Ok(after) ==> s.tokens.is_prefix_of(after.tokens),
{
    if let Ok(d) = s.filter.transition(c, s.buffer) {
        let once = s.apply(c, d);
        assert(s.tokens.is_prefix_of(once.tokens));
        if !d.2 {
            if let Ok(again) = once.filter.transition(c, once.buffer) {
                let twice = once.apply(c, again);
                assert(once.feed(c) == Ok::<LexState, LexError>(twice));
                assert(once.tokens.is_prefix_of(twice.tokens));
                assert(s.tokens.is_prefix_of(twice.tokens));
            }
        }
    }
}

/// Tokens come out in source order: what a prefix of the text has emitted
/// is the beginning of what the whole text emits.
pub proof fn lemma_tokens_in_source_order(s: LexState, text: Seq<char>, n: int)
    requires
        0 <= n <= text.len(),
        s.run(text) is Ok,
    ensures
        s.run(text.take(n)) matches Ok(part) && part.tokens.is_prefix_of(
            s.run(text)->Ok_0.tokens,
        ),
    decreases text.len() - n,
{
    if n == text.len() {
        assert(text.take(n) =~= text);
    } else {
        if s.run(text.take(n)) is Err {
            lemma_run_error_persists(s, text, n);
        }
        assert(text.take(n + 1) =~= text.take(n).push(text[n]));
        lemma_run_push(s, text.take(n), text[n]);
        lemma_tokens_in_source_order(s, text, n + 1);
        lemma_feed_appends(s.run(text.take(n))->Ok_0, text[n]);
    }
}

/// Lexing is a function of the text and of the mode the lexer starts in:
/// two lexers that agree on both give the same tokens, or the same error.
pub proof fn lemma_same_text_same_tokens(first: LexerView, second: LexerView)
    requires
        first.contents == second.contents,
        first.filter == second.filter,
    ensures
        first.lex() == second.lex(),
{
}

/// A lexer whose scan ended in the mode in which it began gives the same
/// tokens when it scans its text again.
pub proof fn lemma_relex_same_tokens(lexer: LexerView)
    requires
        lexer.lex() is Ok,
        lexer.lex()->Ok_0.filter == lexer.filter,
    ensures
        (LexerView { contents: lexer.contents, filter: lexer.lex()->Ok_0.filter }).lex()
            == lexer.lex(),
{
}

/// The structural symbols that the basic mode takes: all but the colon and
/// the comma, which only a parameter list gives.
pub open spec fn is_basic_symbol(t: TokenView) -> bool {
    t is SemiColon || t is CurlyIn || t is CurlyOut || t is ParenIn || t is ParenOut
        || t is SquareIn || t is SquareOut || t is AngleIn || t is AngleOut
}

/// The text of a structural symbol of the basic mode lexes back to that
/// symbol and nothing else.
pub proof fn lemma_symbol_round_trip(t: TokenView)
    requires
        is_basic_symbol(t),
    ensures
        (LexerView { contents: t.text(), filter: Filter::Basic }).lex() == Ok::<
            LexState,
            LexError,
        >(LexState { filter: Filter::Basic, buffer: Seq::empty(), tokens: seq![t] }),
{
    let c = t.text()[0];
    let start = LexState::start(Filter::Basic);
    assert(symbol_of(c) == Some(t));
    assert(t.text() =~= Seq::<char>::empty().push(c));
    lemma_run_push(start, Seq::empty(), c);
    assert(start.run(Seq::empty()) == Ok::<LexState, LexError>(start));
    assert(start.tokens.push(t) =~= seq![t]);
}

/// The colon and the comma are no text of the basic mode: lexed on their
/// own, they are rejected.
pub proof fn lemma_colon_and_comma_rejected(t: TokenView)
    requires
        t is Colon || t is Comma,
    ensures
        (LexerView { contents: t.text(), filter: Filter::Basic }).lex() == Err::<
            LexState,
            LexError,
        >(LexError::InvalidCharacter(t.text()[0])),
{
    let c = t.text()[0];
    let start = LexState::start(Filter::Basic);
    assert(t.text() =~= Seq::<char>::empty().push(c));
    lemma_run_push(start, Seq::empty(), c);
    assert(start.run(Seq::empty()) == Ok::<LexState, LexError>(start));
}

/// Whether every character of `w` is a letter.
pub open spec fn all_letters(w: Seq<char>) -> bool {
    forall|i: int| 0 <= i < w.len() ==> is_letter(#[trigger] w[i])
}

/// Letters fed to the basic mode gather in the buffer: after a text of one
/// or more letters the scanner is in the word mode, holds the text, and has
/// emitted nothing.
pub proof fn lemma_letters_gather(w: Seq<char>)
    requires
        w.len() > 0,
        all_letters(w),
    ensures
        LexState::start(Filter::Basic).run(w) == Ok::<LexState, LexError>(
            LexState { filter: Filter::WordFilter, buffer: w, tokens: Seq::empty() },
        ),
    decreases w.len(),
{
    let start = LexState::start(Filter::Basic);
    let c = w.last();
    let front = w.drop_last();
    assert(w =~= front.push(c));
    assert(is_letter(c));
    assert(symbol_of(c) is None);
    lemma_run_push(start, front, c);
    if front.len() == 0 {
        assert(start.run(front) == Ok::<LexState, LexError>(start));
        assert(start.buffer.push(c) =~= w);
    } else {
        assert(all_letters(front)) by {
            assert forall|i: int| 0 <= i < front.len() implies is_letter(#[trigger] front[i]) by {
                assert(front[i] == w[i]);
            }
        }
        lemma_letters_gather(front);
    }
}

/// A word of letters followed by a character that is no letter: `func` and
/// `class` give their keyword and consume that character; any other word
/// gives a word token, and the character is then taken by the basic mode.
pub proof fn lemma_word_then_end(w: Seq<char>, c: char)
    requires
        w.len() > 0,
        all_letters(w),
        !is_letter(c),
    ensures
        LexState::start(Filter::Basic).run(w.push(c)) == (if w == func_word() {
            Ok::<LexState, LexError>(
                LexState {
                    filter: Filter::FuncFilter,
                    buffer: Seq::empty(),
                    tokens: seq![TokenView::Func],
                },
            )
        } else if w == class_word() {
            Ok::<LexState, LexError>(
                LexState {
                    filter: Filter::Basic,
                    buffer: Seq::empty(),
                    tokens: seq![TokenView::Class],
                },
            )
        } else {
            (LexState {
                filter: Filter::Basic,
                buffer: Seq::empty(),
                tokens: seq![TokenView::Word(w)],
            }).feed(c)
        }),
{
    let start = LexState::start(Filter::Basic);
    let gathered = LexState { filter: Filter::WordFilter, buffer: w, tokens: Seq::empty() };
    lemma_letters_gather(w);
    lemma_run_push(start, w, c);
    assert(gathered.tokens.push(TokenView::Func) =~= seq![TokenView::Func]);
    assert(gathered.tokens.push(TokenView::Class) =~= seq![TokenView::Class]);
    assert(gathered.tokens.push(TokenView::Word(w)) =~= seq![TokenView::Word(w)]);
}

/// The text of the keyword `func` or `class`, followed by any character that
/// is no letter, lexes back to that keyword and nothing else.
pub proof fn lemma_keyword_round_trip(t: TokenView, c: char)
    requires
        t is Func || t is Class,
        !is_letter(c),
    ensures
        (LexerView { contents: t.text().push(c), filter: Filter::Basic }).lex() matches Ok(end)
            && end.tokens == seq![t] && end.buffer == Seq::<char>::empty(),
{
    let w = t.text();
    assert(w == func_word() || w == class_word());
    assert(func_word() != class_word()) by {
        assert(func_word().len() != class_word().len());
    }
    assert(all_letters(w));
    lemma_word_then_end(w, c);
}

} // verus!
