use bft::lexer::lex;
use bft::{RawInstruction, Token};

fn token(line_number: usize, col_number: usize, c: char) -> Token {
    Token::new(line_number, col_number, c).unwrap()
}

#[test]
fn create_invalid_token() {
    assert_eq!(Token::new(1, 1, 'f'), None);
}

#[test]
fn create_valid_token() {
    assert_eq!(
        Token::new(1, 1, '<').unwrap(),
        Token {
            line_number: 1,
            col_number: 1,
            instruction: RawInstruction::from_char('<').unwrap()
        }
    );
}

#[test]
fn instr_char_convert() {
    assert_eq!('<', RawInstruction::from_char('<').unwrap().to_char())
}

#[test]
fn every_instruction_has_its_character() {
    let table = [
        ('>', RawInstruction::IncrementPointer),
        ('<', RawInstruction::DecrementPointer),
        ('+', RawInstruction::Increment),
        ('-', RawInstruction::Decrement),
        ('.', RawInstruction::Output),
        (',', RawInstruction::Input),
        ('[', RawInstruction::StartLoop),
        (']', RawInstruction::EndLoop),
    ];
    for (c, instruction) in table {
        assert_eq!(RawInstruction::from_char(c), Some(instruction));
        assert_eq!(instruction.to_char(), c);
    }
}

#[test]
fn other_characters_are_no_instructions() {
    for c in ['a', ' ', '\n', '\t', '0', '(', ')', '{', '}', '=', '*', 'é', '\u{1F600}'] {
        assert_eq!(RawInstruction::from_char(c), None);
        assert_eq!(Token::new(3, 4, c), None);
    }
}

#[test]
fn token_keeps_the_position_it_is_given() {
    let t = Token::new(7, 12, ']').unwrap();
    assert_eq!(t.line_number, 7);
    assert_eq!(t.col_number, 12);
    assert_eq!(t.instruction, RawInstruction::EndLoop);
}

#[test]
fn lex_empty_text() {
    assert_eq!(lex(""), vec![]);
}

#[test]
fn lex_comment_only_text() {
    assert_eq!(lex("no instructions here\nnor here\n"), vec![]);
}

#[test]
fn lex_counts_columns_from_one() {
    assert_eq!(lex("+-"), vec![token(1, 1, '+'), token(1, 2, '-')]);
}

#[test]
fn lex_comments_advance_the_column() {
    assert_eq!(
        lex("ab+ c-"),
        vec![token(1, 3, '+'), token(1, 6, '-')]
    );
}

#[test]
fn lex_line_feed_starts_a_new_line() {
    assert_eq!(
        lex("+\n\n  [\n]x,"),
        vec![
            token(1, 1, '+'),
            token(3, 3, '['),
            token(4, 1, ']'),
            token(4, 3, ','),
        ]
    );
}

#[test]
fn lex_counts_characters_not_bytes() {
    assert_eq!(
        lex("é+\u{1F600}\u{1F600}.\nü<"),
        vec![token(1, 2, '+'), token(1, 5, '.'), token(2, 2, '<')]
    );
}

#[test]
fn lex_carriage_return_is_a_comment() {
    assert_eq!(
        lex("+\r\n-\r\n"),
        vec![token(1, 1, '+'), token(2, 1, '-')]
    );
}

#[test]
fn lex_keeps_all_eight_in_order() {
    let tokens = lex("<>.,+-[]");
    let text: String = tokens.iter().map(|t| t.instruction.to_char()).collect();
    assert_eq!(text, "<>.,+-[]");
    for (i, t) in tokens.iter().enumerate() {
        assert_eq!(t.line_number, 1);
        assert_eq!(t.col_number, i + 1);
    }
}

#[test]
fn lex_again_what_was_kept() {
    let source = "read , then [ echo . and read , again ]\n+ + done";
    let first = lex(source);
    let kept: String = first.iter().map(|t| t.instruction.to_char()).collect();
    assert_eq!(kept, ",[.,]++");
    let second = lex(&kept);
    let first_instructions: Vec<RawInstruction> = first.iter().map(|t| t.instruction).collect();
    let second_instructions: Vec<RawInstruction> = second.iter().map(|t| t.instruction).collect();
    assert_eq!(first_instructions, second_instructions);
    let kept_again: String = second.iter().map(|t| t.instruction.to_char()).collect();
    assert_eq!(kept_again, kept);
    assert_eq!(lex(&kept_again), second);
}
