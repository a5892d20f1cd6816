//! Reading and writing back.
//!
//! The tokens of a text, written out with a space after each, are a text with
//! the same tokens; and the tokens that the parser takes for a form are exactly
//! the tokens that the form writes back. So a text and the form read from it
//! have the same nested shape, whatever white space the text had.

use vstd::prelude::*;
use crate::builtin::env::EnvView;
use crate::exp::{ErrView, ExpView};
use crate::host::HostNum;
use crate::reader::{
    TokenView, flushed, is_paren, is_space, lemma_parsed_shorter, parsed, parsed_items, scanned,
    tokens_of,
};

verus! {

/// No character of `word` is white space or a parenthesis.
pub open spec fn wordy(word: Seq<char>) -> bool {
    forall|i: int| 0 <= i < word.len() ==> !is_space(#[trigger] word[i]) && !is_paren(word[i])
}

/// `token` is a parenthesis by itself, or a word that is not empty.
pub open spec fn clean(token: Seq<char>) -> bool {
    (token.len() == 1 && is_paren(token[0])) || (token.len() > 0 && wordy(token))
}

/// Every token of `tokens` is clean.
pub open spec fn all_clean(tokens: Seq<Seq<char>>) -> bool {
    forall|i: int| 0 <= i < tokens.len() ==> clean(#[trigger] tokens[i])
}

/// `tokens` written out, each followed by one space.
pub open spec fn spaced(tokens: Seq<Seq<char>>) -> Seq<char>
    decreases tokens.len(),
{
    if tokens.len() == 0 {
        Seq::empty()
    } else {
        tokens[0] + seq![' '] + spaced(tokens.skip(1))
    }
}

/// Scanning over a word only extends the pending word.
pub proof fn lemma_scanned_word(word: Seq<char>, rest: Seq<char>, pending: Seq<char>)
    requires
        wordy(word),
    ensures
        scanned(word + rest, pending) == scanned(rest, pending + word),
    decreases word.len(),
{
    if word.len() == 0 {
        assert(word + rest =~= rest);
        assert(pending + word =~= pending);
    } else {
        let c = word[0];
        assert((word + rest)[0] == c);
        assert((word + rest).skip(1) =~= word.skip(1) + rest);
        assert forall|i: int| 0 <= i < word.skip(1).len() implies !is_space(
            #[trigger] word.skip(1)[i],
        ) && !is_paren(word.skip(1)[i]) by {
            assert(word.skip(1)[i] == word[i + 1]);
        }
        lemma_scanned_word(word.skip(1), rest, pending.push(c));
        assert(pending.push(c) + word.skip(1) =~= pending + word);
    }
}

/// The tokens read after a pending word are clean, if the word has no white
/// space and no parenthesis in it.
pub proof fn lemma_scanned_clean(text: Seq<char>, word: Seq<char>)
    requires
        wordy(word),
    ensures
        all_clean(scanned(text, word)),
    decreases text.len(),
{
    if text.len() > 0 {
        let c = text[0];
        if is_space(c) || is_paren(c) {
            lemma_scanned_clean(text.skip(1), Seq::empty());
            let tail = scanned(text.skip(1), Seq::empty());
            let head = if is_space(c) {
                flushed(word)
            } else {
                flushed(word) + seq![seq![c]]
            };
            assert(scanned(text, word) =~= head + tail);
            assert forall|i: int| 0 <= i < (head + tail).len() implies clean(
                #[trigger] (head + tail)[i],
            ) by {
                if i < head.len() {
                    if word.len() > 0 && i == 0 {
                        assert((head + tail)[i] == word);
                    } else {
                        assert((head + tail)[i] == seq![c]);
                    }
                } else {
                    assert((head + tail)[i] == tail[i - head.len()]);
                }
            }
        } else {
            assert forall|i: int| 0 <= i < word.push(c).len() implies !is_space(
                #[trigger] word.push(c)[i],
            ) && !is_paren(word.push(c)[i]) by {
                if i < word.len() {
                    assert(word.push(c)[i] == word[i]);
                }
            }
            lemma_scanned_clean(text.skip(1), word.push(c));
        }
    }
}

/// Every token of a text is a parenthesis by itself or a word that is not
/// empty.
pub proof fn law_tokens_clean(text: Seq<char>)
    ensures
        all_clean(tokens_of(text)),
{
    lemma_scanned_clean(text, Seq::empty());
}

/// Clean tokens, written out with a space after each, read back as
/// themselves.
pub proof fn law_tokens_of_spaced(tokens: Seq<Seq<char>>)
    requires
        all_clean(tokens),
    ensures
        tokens_of(spaced(tokens)) == tokens,
    decreases tokens.len(),
{
    if tokens.len() == 0 {
        assert(tokens_of(spaced(tokens)) =~= tokens);
    } else {
        let first = tokens[0];
        let others = tokens.skip(1);
        let tail = spaced(others);
        let none = Seq::<char>::empty();
        assert forall|i: int| 0 <= i < others.len() implies clean(#[trigger] others[i]) by {
            assert(others[i] == tokens[i + 1]);
        }
        law_tokens_of_spaced(others);
        assert(clean(first));
        let after = seq![' '] + tail;
        assert(spaced(tokens) =~= first + after);
        assert(after[0] == ' ');
        assert(after.skip(1) =~= tail);
        assert(is_space(' '));
        if first.len() == 1 && is_paren(first[0]) {
            assert(!is_space(first[0]));
            assert((first + after)[0] == first[0]);
            assert((first + after).skip(1) =~= after);
            assert(seq![first[0]] =~= first);
            assert(scanned(after, none) =~= flushed(none) + scanned(tail, none));
            assert(scanned(first + after, none) =~= seq![first] + others);
        } else {
            lemma_scanned_word(first, after, none);
            assert(none + first =~= first);
            assert(scanned(after, first) =~= flushed(first) + scanned(tail, none));
            assert(scanned(first + after, none) =~= seq![first] + others);
        }
        assert(seq![first] + others =~= tokens);
    }
}

/// Writing out the tokens of a text and reading them again gives the same
/// tokens: only the white space of the text is lost.
pub proof fn law_text_round_trip(text: Seq<char>)
    ensures
        tokens_of(spaced(tokens_of(text))) == tokens_of(text),
{
    law_tokens_clean(text);
    law_tokens_of_spaced(tokens_of(text));
}

/// What a token is to the parser.
pub enum Lexeme {
    /// `(`.
    Open,
    /// `)`.
    Close,
    /// A token that spells this number.
    Number(HostNum),
    /// Any other token.
    Word(Seq<char>),
}

/// What `token` is to the parser.
pub open spec fn lexeme(token: TokenView) -> Lexeme {
    if token.text == "("@ {
        Lexeme::Open
    } else if token.text == ")"@ {
        Lexeme::Close
    } else {
        match token.number {
            Some(bits) => Lexeme::Number(HostNum::Lit(bits)),
            None => Lexeme::Word(token.text),
        }
    }
}

/// What `tokens` are to the parser, in order.
pub open spec fn lexemes(tokens: Seq<TokenView>) -> Seq<Lexeme> {
    Seq::new(tokens.len(), |i: int| lexeme(tokens[i]))
}

/// The form `exp` written back as tokens: an atom is one token, a list is its
/// items between parentheses. Values that no text reads as write nothing.
pub open spec fn written(exp: ExpView) -> Seq<Lexeme>
    decreases exp, 0nat,
{
    match exp {
        ExpView::Symbol(name) => seq![Lexeme::Word(name)],
        ExpView::Number(value, _) => seq![Lexeme::Number(value)],
        ExpView::List(items) => seq![Lexeme::Open] + written_all(items) + seq![Lexeme::Close],
        ExpView::Func(_, _) => Seq::empty(),
        ExpView::Null => Seq::empty(),
    }
}

/// The forms `items` written back one after the other.
pub open spec fn written_all(items: Seq<ExpView>) -> Seq<Lexeme>
    decreases items, 0nat,
{
    if items.len() == 0 {
        Seq::empty()
    } else {
        written_all(items.drop_last()) + written(items.last())
    }
}

/// The tokens that the parser takes for a form are the form written back, and
/// the tokens it leaves are the ones that followed.
pub proof fn law_parse_round_trip(tokens: Seq<TokenView>, env: EnvView)
    ensures
        parsed(tokens, env).0 matches Ok((form, rest)) ==> lexemes(tokens) == written(form)
            + lexemes(rest),
    decreases tokens.len(), 0nat,
{
    if tokens.len() > 0 {
        let after = tokens.skip(1);
        assert(lexemes(tokens) =~= seq![lexeme(tokens[0])] + lexemes(after));
        if tokens[0].text == "("@ {
            law_parse_items_round_trip(after, env, Seq::empty());
            if let Ok((form, rest)) = parsed_items(after, env, Seq::empty()).0 {
                assert(written_all(Seq::<ExpView>::empty()) =~= Seq::<Lexeme>::empty());
                let inner = written_all(form->List_0);
                assert(lexemes(tokens) =~= seq![Lexeme::Open] + (inner + seq![Lexeme::Close]
                    + lexemes(rest)));
                assert(written(form) + lexemes(rest) =~= seq![Lexeme::Open] + (inner + seq![
                    Lexeme::Close,
                ] + lexemes(rest)));
            }
        }
    }
}

/// The tokens that the parser takes for the rest of a list are its further
/// items written back and the closing parenthesis.
pub proof fn law_parse_items_round_trip(tokens: Seq<TokenView>, env: EnvView, items: Seq<ExpView>)
    ensures
        parsed_items(tokens, env, items).0 matches Ok((form, rest)) ==> {
            &&& form is List
            &&& written_all(items) + lexemes(tokens) == written_all(form->List_0) + seq![
                Lexeme::Close,
            ] + lexemes(rest)
        },
    decreases tokens.len(), 1nat,
{
    if tokens.len() > 0 {
        if tokens[0].text == ")"@ {
            let after = tokens.skip(1);
            reveal_strlit("(");
            reveal_strlit(")");
            assert("("@[0] != ")"@[0]);
            assert(lexemes(tokens) =~= seq![Lexeme::Close] + lexemes(after));
            assert(written_all(items) + lexemes(tokens) =~= written_all(items) + seq![
                Lexeme::Close,
            ] + lexemes(after));
        } else {
            let (item, env1) = parsed(tokens, env);
            law_parse_round_trip(tokens, env);
            if let Ok((form, rest)) = item {
                if rest.len() < tokens.len() {
                    law_parse_items_round_trip(rest, env1, items.push(form));
                    assert(items.push(form).drop_last() =~= items);
                    assert(written_all(items.push(form)) == written_all(items) + written(form));
                    assert(written_all(items) + lexemes(tokens) =~= written_all(items.push(form))
                        + lexemes(rest));
                }
            }
        }
    }
}

/// Two outcomes of reading show the same shape: the same failure, or forms
/// that write back the same, with the same tokens left after them.
pub open spec fn same_shape(
    first: Result<(ExpView, Seq<TokenView>), ErrView>,
    second: Result<(ExpView, Seq<TokenView>), ErrView>,
) -> bool {
    match (first, second) {
        (Ok((form1, rest1)), Ok((form2, rest2))) => {
            &&& written(form1) == written(form2)
            &&& lexemes(rest1) == lexemes(rest2)
        },
        (Err(error1), Err(error2)) => error1 == error2,
        _ => false,
    }
}

/// What the parser reads depends on what the tokens are to it, and on nothing
/// else: token sequences that agree lexeme by lexeme are read as forms of the
/// same shape, in whatever contexts they are read. In particular a form read
/// from a text is read again from any text with the same tokens, however its
/// numbers are spelled and its white space is laid out.
pub proof fn law_parse_by_lexemes(
    first: Seq<TokenView>,
    env1: EnvView,
    second: Seq<TokenView>,
    env2: EnvView,
)
    requires
        lexemes(first) == lexemes(second),
    ensures
        same_shape(parsed(first, env1).0, parsed(second, env2).0),
    decreases first.len(), 0nat,
{
    assert(first.len() == lexemes(first).len());
    assert(second.len() == lexemes(second).len());
    if first.len() > 0 {
        assert(lexeme(first[0]) == lexemes(first)[0]);
        assert(lexeme(second[0]) == lexemes(second)[0]);
        assert(lexemes(first.skip(1)) =~= lexemes(first).skip(1));
        assert(lexemes(second.skip(1)) =~= lexemes(second).skip(1));
        if first[0].text == "("@ {
            law_parse_items_by_lexemes(
                first.skip(1),
                env1,
                Seq::empty(),
                second.skip(1),
                env2,
                Seq::empty(),
            );
        }
    }
}

/// The rest of a list is read by its lexemes too.
pub proof fn law_parse_items_by_lexemes(
    first: Seq<TokenView>,
    env1: EnvView,
    items1: Seq<ExpView>,
    second: Seq<TokenView>,
    env2: EnvView,
    items2: Seq<ExpView>,
)
    requires
        lexemes(first) == lexemes(second),
        written_all(items1) == written_all(items2),
    ensures
        same_shape(parsed_items(first, env1, items1).0, parsed_items(second, env2, items2).0),
    decreases first.len(), 1nat,
{
    assert(first.len() == lexemes(first).len());
    assert(second.len() == lexemes(second).len());
    if first.len() > 0 {
        assert(lexeme(first[0]) == lexemes(first)[0]);
        assert(lexeme(second[0]) == lexemes(second)[0]);
        reveal_strlit("(");
        reveal_strlit(")");
        assert("("@[0] != ")"@[0]);
        if first[0].text == ")"@ {
            assert(lexemes(first.skip(1)) =~= lexemes(first).skip(1));
            assert(lexemes(second.skip(1)) =~= lexemes(second).skip(1));
        } else {
            let (item1, next1) = parsed(first, env1);
            let (item2, next2) = parsed(second, env2);
            law_parse_by_lexemes(first, env1, second, env2);
            lemma_parsed_shorter(first, env1);
            lemma_parsed_shorter(second, env2);
            if let Ok((form1, rest1)) = item1 {
                let (form2, rest2) = item2->Ok_0;
                assert(items1.push(form1).drop_last() =~= items1);
                assert(items2.push(form2).drop_last() =~= items2);
                assert(rest1.len() == lexemes(rest1).len());
                assert(rest2.len() == lexemes(rest2).len());
                law_parse_items_by_lexemes(
                    rest1,
                    next1,
                    items1.push(form1),
                    rest2,
                    next2,
                    items2.push(form2),
                );
            }
        }
    }
}

} // verus!
