//! From source text to positioned tokens.
//!
//! Every character of the instruction alphabet becomes one token; every other
//! character is a comment. Comments yield no token but still count towards the
//! line and column of what follows them.

use vstd::prelude::*;
use vstd::std_specs::iter::IteratorSpec;
use vstd::utf8::encode_utf8;
use crate::instruction::{char_of, is_instruction_char};
use crate::token::{instructions, token_at, Token};

verus! {

/// The 1-based line of the character at index `k`: one more than the number
/// of line feeds before it.
pub open spec fn line_at(text: Seq<char>, k: int) -> int
    decreases k,
{
    if k <= 0 {
        1
    } else if text[k - 1] == '\n' {
        line_at(text, k - 1) + 1
    } else {
        line_at(text, k - 1)
    }
}

/// The 1-based column of the character at index `k`: one more than the
/// number of characters since the last line feed before it.
pub open spec fn column_at(text: Seq<char>, k: int) -> int
    decreases k,
{
    if k <= 0 {
        1
    } else if text[k - 1] == '\n' {
        1
    } else {
        column_at(text, k - 1) + 1
    }
}

/// The tokens of the first `k` characters of `text`.
pub open spec fn lex_prefix(text: Seq<char>, k: int) -> Seq<Token>
    decreases k,
{
    if k <= 0 {
        Seq::empty()
    } else {
        let before = lex_prefix(text, k - 1);
        let line = line_at(text, k - 1) as usize;
        let column = column_at(text, k - 1) as usize;
        match token_at(line, column, text[k - 1]) {
            Some(token) => before.push(token),
            None => before,
        }
    }
}

/// The tokens of `text`.
pub open spec fn lex_spec(text: Seq<char>) -> Seq<Token> {
    lex_prefix(text, text.len() as int)
}

/// The source characters of a token sequence, one per token.
pub open spec fn render(tokens: Seq<Token>) -> Seq<char> {
    Seq::new(tokens.len(), |i: int| char_of(tokens[i].instruction))
}

/// `text` without its comments.
pub open spec fn strip_comments(text: Seq<char>) -> Seq<char> {
    text.filter(|c: char| is_instruction_char(c))
}

/// Lines and columns of the first `k` characters start at one and stay
/// within `k + 1`.
pub proof fn lemma_position_bounds(text: Seq<char>, k: int)
    requires
        0 <= k,
    ensures
        1 <= line_at(text, k) <= k + 1,
        1 <= column_at(text, k) <= k + 1,
    decreases k,
{
    if k > 0 {
        lemma_position_bounds(text, k - 1);
    }
}

/// Text has no more characters than its UTF-8 encoding has bytes.
proof fn lemma_encoding_no_shorter(text: Seq<char>)
    ensures
        text.len() <= encode_utf8(text).len(),
    decreases text.len(),
{
    if text.len() > 0 {
        lemma_encoding_no_shorter(text.drop_first());
    }
}

/// Every token of lexed text stands at a line and a column of at least one.
pub proof fn lemma_lex_positions(text: Seq<char>, k: int)
    requires
        0 <= k <= text.len() <= usize::MAX,
    ensures
        lex_prefix(text, k).len() <= k,
        forall|i: int|
            0 <= i < lex_prefix(text, k).len() ==> {
                &&& 1 <= (#[trigger] lex_prefix(text, k)[i]).line_number <= k
                &&& 1 <= lex_prefix(text, k)[i].col_number <= k
            },
    decreases k,
{
    if k > 0 {
        lemma_lex_positions(text, k - 1);
        lemma_position_bounds(text, k - 1);
    }
}

/// Lexing keeps exactly the characters of the instruction alphabet, in their
/// order: the tokens spell the text without its comments.
pub proof fn lemma_lex_keeps_alphabet(text: Seq<char>)
    ensures
        render(lex_spec(text)) == strip_comments(text),
{
    lemma_lex_prefix_keeps_alphabet(text, text.len() as int);
    assert(text.subrange(0, text.len() as int) =~= text);
}

/// The tokens of a prefix of the text spell that prefix without its
/// comments.
proof fn lemma_lex_prefix_keeps_alphabet(text: Seq<char>, k: int)
    requires
        0 <= k <= text.len(),
    ensures
        render(lex_prefix(text, k)) == strip_comments(text.subrange(0, k)),
    decreases k,
{
    reveal(Seq::filter);
    let head = text.subrange(0, k);
    if k > 0 {
        lemma_lex_prefix_keeps_alphabet(text, k - 1);
        assert(head.drop_last() =~= text.subrange(0, k - 1));
        assert(head.last() == text[k - 1]);
        let before = lex_prefix(text, k - 1);
        if is_instruction_char(text[k - 1]) {
            assert(render(lex_prefix(text, k)) =~= render(before).push(text[k - 1]));
        }
    } else {
        assert(render(lex_prefix(text, k)) =~= Seq::<char>::empty());
    }
}

/// Text that spells a token sequence lexes back to the same instructions.
pub proof fn lemma_lex_render(tokens: Seq<Token>)
    ensures
        instructions(lex_spec(render(tokens))) == instructions(tokens),
{
    lemma_lex_render_prefix(tokens, tokens.len() as int);
    assert(instructions(lex_spec(render(tokens))) =~= instructions(tokens));
}

/// The first `k` characters of text that spells a token sequence lex to `k`
/// tokens with the instructions of the first `k` tokens.
proof fn lemma_lex_render_prefix(tokens: Seq<Token>, k: int)
    requires
        0 <= k <= tokens.len(),
    ensures
        lex_prefix(render(tokens), k).len() == k,
        forall|i: int|
            0 <= i < k ==> (#[trigger] lex_prefix(render(tokens), k)[i]).instruction
                == tokens[i].instruction,
    decreases k,
{
    if k > 0 {
        lemma_lex_render_prefix(tokens, k - 1);
    }
}

/// Lexing again what lexing kept changes nothing: the text without its
/// comments yields the same instructions as the text, and has no comments
/// left to strip.
pub proof fn lemma_relex_idempotent(text: Seq<char>)
    ensures
        instructions(lex_spec(strip_comments(text))) == instructions(lex_spec(text)),
        strip_comments(strip_comments(text)) == strip_comments(text),
{
    lemma_lex_keeps_alphabet(text);
    lemma_lex_render(lex_spec(text));
    lemma_lex_keeps_alphabet(strip_comments(text));
    let again = lex_spec(strip_comments(text));
    assert(render(again) =~= render(lex_spec(text))) by {
        assert(instructions(again) == instructions(lex_spec(text)));
        assert(again.len() == instructions(again).len());
        assert(lex_spec(text).len() == instructions(lex_spec(text)).len());
        assert forall|i: int| 0 <= i < again.len() implies render(again)[i] == render(
            lex_spec(text),
        )[i] by {
            assert(instructions(again)[i] == again[i].instruction);
            assert(instructions(lex_spec(text))[i] == lex_spec(text)[i].instruction);
        }
    }
}

/// Turns source text into tokens, one per instruction character, each with
/// the line and column of its character.
pub fn lex(content: &str) -> (tokens: Vec<Token>)
    ensures
        tokens@ == lex_spec(content@),
{
    broadcast use vstd::string::group_string_axioms;

    let ghost text = content@;
    // The text is no longer than its bytes, whose number fits a `usize`:
    // this is what keeps the counters below from overflowing.
    let bytes = content.as_bytes();
    proof {
        lemma_encoding_no_shorter(text);
        assert(text.len() <= bytes.len() <= usize::MAX);
    }
    let mut tokens: Vec<Token> = Vec::new();
    // Line feeds seen so far, and characters since the last of them.
    let mut line_feeds: usize = 0;
    let mut since_feed: usize = 0;
    let mut chars = content.chars();
    let ghost mut k: int = 0;
    assert(chars.remaining() =~= text.subrange(0, text.len() as int));
    loop
        invariant
            text == content@,
            text.len() <= usize::MAX,
            0 <= k <= text.len(),
            chars.obeys_prophetic_iter_laws(),
            chars.remaining() == text.subrange(k, text.len() as int),
            line_feeds + 1 == line_at(text, k),
            since_feed + 1 == column_at(text, k),
            tokens@ == lex_prefix(text, k),
        ensures
            tokens@ == lex_spec(text),
        decreases text.len() - k,
    {
        proof {
            lemma_position_bounds(text, k);
        }
        match chars.next() {
            None => {
                break ;
            },
            Some(c) => {
                assert(c == text[k]);
                match Token::new(line_feeds + 1, since_feed + 1, c) {
                    Some(token) => {
                        tokens.push(token);
                    },
                    None => {},
                }
                if c == '\n' {
                    line_feeds += 1;
                    since_feed = 0;
                } else {
                    since_feed += 1;
                }
                proof {
                    assert(text.subrange(k, text.len() as int).drop_first() =~= text.subrange(
                        k + 1,
                        text.len() as int,
                    ));
                    k = k + 1;
                }
            },
        }
    }
    tokens
}

} // verus!
