use compiler::tokenizer::token::token_type::symbol::Symbol;
use compiler::tokenizer::token::token_type::word::Word;
use compiler::tokenizer::token::token_type::TokenType;
use compiler::tokenizer::token::Token;
use compiler::tokenizer::tokenize;

fn kinds(src: &str) -> Vec<TokenType> {
    tokenize(src).unwrap().into_iter().map(|t| t.typ).collect()
}

fn ident(name: &str) -> TokenType {
    TokenType::Ident(name.to_string())
}

#[test]
fn addition_has_eight_tokens_and_the_end() {
    let tokens = tokenize("fn main { 1 + 2; }").unwrap();
    let expected = vec![
        Token::new(TokenType::Word(Word::Function), 0, 0),
        Token::new(ident("main"), 0, 3),
        Token::new(TokenType::Symbol(Symbol::OpenBrace), 0, 8),
        Token::new(TokenType::Number(1), 0, 10),
        Token::new(TokenType::Symbol(Symbol::Add), 0, 12),
        Token::new(TokenType::Number(2), 0, 14),
        Token::new(TokenType::Symbol(Symbol::End), 0, 15),
        Token::new(TokenType::Symbol(Symbol::CloseBrace), 0, 17),
        Token::new(TokenType::Eof, 0, 18),
    ];
    assert_eq!(tokens, expected);
}

#[test]
fn empty_text_is_the_end_alone() {
    assert_eq!(tokenize("").unwrap(), vec![Token::new(TokenType::Eof, 0, 0)]);
}

#[test]
fn white_space_is_the_end_alone() {
    assert_eq!(tokenize("  \t \r ").unwrap(), vec![Token::new(TokenType::Eof, 0, 6)]);
    assert_eq!(tokenize(" \n\n  ").unwrap(), vec![Token::new(TokenType::Eof, 2, 2)]);
    assert_eq!(tokenize("\n").unwrap(), vec![Token::new(TokenType::Eof, 1, 0)]);
}

#[test]
fn line_break_starts_a_line_at_column_zero() {
    let tokens = tokenize("a\n  b\r\nc").unwrap();
    let expected = vec![
        Token::new(ident("a"), 0, 0),
        Token::new(ident("b"), 1, 2),
        Token::new(ident("c"), 2, 0),
        Token::new(TokenType::Eof, 2, 1),
    ];
    assert_eq!(tokens, expected);
}

#[test]
fn less_or_equal_is_one_token() {
    assert_eq!(kinds("<=="), vec![TokenType::Symbol(Symbol::LessOrEqual), TokenType::Eof]);
}

#[test]
fn longest_spelling_wins() {
    assert_eq!(kinds("<="), vec![TokenType::Symbol(Symbol::ChangeMin), TokenType::Eof]);
    assert_eq!(kinds("<"), vec![TokenType::Symbol(Symbol::Less), TokenType::Eof]);
    assert_eq!(kinds("<=>"), vec![TokenType::Symbol(Symbol::Exchange), TokenType::Eof]);
    assert_eq!(kinds("<<="), vec![TokenType::Symbol(Symbol::LShiftAssign), TokenType::Eof]);
    assert_eq!(kinds(">=="), vec![TokenType::Symbol(Symbol::GreaterOrEqual), TokenType::Eof]);
    assert_eq!(kinds(">="), vec![TokenType::Symbol(Symbol::ChangeMax), TokenType::Eof]);
    assert_eq!(kinds("**="), vec![TokenType::Symbol(Symbol::PowerAssign), TokenType::Eof]);
    assert_eq!(kinds("**"), vec![TokenType::Symbol(Symbol::Power), TokenType::Eof]);
    assert_eq!(kinds("*"), vec![TokenType::Symbol(Symbol::Mul), TokenType::Eof]);
    assert_eq!(kinds("//="), vec![TokenType::Symbol(Symbol::RootAssign), TokenType::Eof]);
    assert_eq!(kinds("//"), vec![TokenType::Symbol(Symbol::Root), TokenType::Eof]);
    assert_eq!(kinds("/="), vec![TokenType::Symbol(Symbol::DivAssign), TokenType::Eof]);
    assert_eq!(kinds("/"), vec![TokenType::Symbol(Symbol::Div), TokenType::Eof]);
}

#[test]
fn symbols_split_where_no_longer_one_fits() {
    assert_eq!(
        kinds("<===="),
        vec![
            TokenType::Symbol(Symbol::LessOrEqual),
            TokenType::Symbol(Symbol::Equal),
            TokenType::Eof
        ]
    );
    assert_eq!(
        kinds(";;;"),
        vec![
            TokenType::Symbol(Symbol::End),
            TokenType::Symbol(Symbol::End),
            TokenType::Symbol(Symbol::End),
            TokenType::Eof
        ]
    );
    assert_eq!(
        kinds("+++"),
        vec![TokenType::Symbol(Symbol::Increment), TokenType::Symbol(Symbol::Add), TokenType::Eof]
    );
}

#[test]
fn every_symbol_reads_as_itself() {
    for symbol in Symbol::get_len_order_list() {
        assert_eq!(kinds(symbol.to_str()), vec![TokenType::Symbol(symbol), TokenType::Eof]);
    }
}

#[test]
fn every_keyword_reads_as_itself() {
    for word in Word::get_list() {
        assert_eq!(kinds(word.to_str()), vec![TokenType::Word(word), TokenType::Eof]);
    }
}

#[test]
fn keyword_at_the_end_of_the_text_is_a_keyword() {
    assert_eq!(kinds("x fn"), vec![ident("x"), TokenType::Word(Word::Function), TokenType::Eof]);
}

#[test]
fn word_that_holds_a_keyword_is_an_identifier() {
    assert_eq!(kinds("fns iff"), vec![ident("fns"), ident("iff"), TokenType::Eof]);
}

#[test]
fn word_ends_at_white_space_and_at_a_symbol() {
    assert_eq!(
        kinds("ab+cd\tef\rgh"),
        vec![
            ident("ab"),
            TokenType::Symbol(Symbol::Add),
            ident("cd"),
            ident("ef"),
            ident("gh"),
            TokenType::Eof
        ]
    );
}

#[test]
fn digits_inside_a_word_belong_to_it() {
    assert_eq!(kinds("x1 y22z"), vec![ident("x1"), ident("y22z"), TokenType::Eof]);
}

#[test]
fn number_ends_at_the_first_other_character() {
    assert_eq!(kinds("12ab"), vec![TokenType::Number(12), ident("ab"), TokenType::Eof]);
    assert_eq!(kinds("007"), vec![TokenType::Number(7), TokenType::Eof]);
    assert_eq!(kinds("0"), vec![TokenType::Number(0), TokenType::Eof]);
}

#[test]
fn number_column_counts_its_digits() {
    let tokens = tokenize("1234 5").unwrap();
    assert_eq!(tokens[1], Token::new(TokenType::Number(5), 0, 5));
    assert_eq!(tokens[2], Token::new(TokenType::Eof, 0, 6));
}

#[test]
fn largest_number_is_read() {
    assert_eq!(
        kinds("9223372036854775807"),
        vec![TokenType::Number(9223372036854775807), TokenType::Eof]
    );
}

#[test]
fn number_out_of_range_is_undefined() {
    assert_eq!(tokenize("9223372036854775808"), Err("Undefined Token(0:0)".to_string()));
    assert_eq!(
        tokenize("x;\n  y = 99999999999999999999999;"),
        Err("Undefined Token(1:6)".to_string())
    );
}

#[test]
fn at_sign_is_an_identifier() {
    let tokens = tokenize("fn main { @ }").unwrap();
    assert_eq!(tokens[3], Token::new(ident("@"), 0, 10));
    assert_eq!(tokens.len(), 6);
}

#[test]
fn characters_beyond_ascii_count_as_one_column() {
    let tokens = tokenize("é + ü").unwrap();
    let expected = vec![
        Token::new(ident("é"), 0, 0),
        Token::new(TokenType::Symbol(Symbol::Add), 0, 2),
        Token::new(ident("ü"), 0, 4),
        Token::new(TokenType::Eof, 0, 5),
    ];
    assert_eq!(tokens, expected);
}

#[test]
fn last_token_is_the_end_and_no_other_is() {
    let tokens = tokenize("fn f[a, b] { a <=> b; for ;;; { } }").unwrap();
    let last = tokens.len() - 1;
    assert_eq!(tokens[last].typ, TokenType::Eof);
    for token in &tokens[..last] {
        assert_ne!(token.typ, TokenType::Eof);
    }
}

#[test]
fn colon_is_the_return_marker() {
    assert_eq!(kinds(":"), vec![TokenType::Symbol(Symbol::Return), TokenType::Eof]);
}

#[test]
fn spelled_length_of_each_kind() {
    assert_eq!(TokenType::Symbol(Symbol::Exchange).get_len(), 3);
    assert_eq!(TokenType::Symbol(Symbol::Add).get_len(), 1);
    assert_eq!(TokenType::Word(Word::While).get_len(), 5);
    assert_eq!(ident("main").get_len(), 4);
    assert_eq!(ident("é").get_len(), 1);
    assert_eq!(TokenType::Number(1234).get_len(), 0);
    assert_eq!(TokenType::Eof.get_len(), 0);
}

#[test]
fn symbols_are_ordered_by_falling_length() {
    let list = Symbol::get_len_order_list();
    assert_eq!(list.len(), 49);
    for pair in list.windows(2) {
        assert!(pair[0].to_str().len() >= pair[1].to_str().len());
    }
    assert_eq!(list[0], Symbol::LessOrEqual);
    assert_eq!(list[48], Symbol::Return);
}

#[test]
fn symbol_characters_are_sorted_and_single() {
    let chars = Symbol::get_symbol_char_list();
    let expected: Vec<char> = "!%&()*+,-/:;<=>[]^{|}~".chars().collect();
    assert_eq!(chars, expected);
    for symbol in Symbol::get_len_order_list() {
        assert!(chars.contains(&symbol.to_str().chars().next().unwrap()));
    }
}

#[test]
fn keywords_in_order_of_declaration() {
    let spelled: Vec<&str> = Word::get_list().iter().map(|w| w.to_str()).collect();
    assert_eq!(spelled, vec!["fn", "if", "else", "for", "while", "loop", "int", "flt"]);
}

#[test]
fn each_token_is_spelled_at_its_place() {
    let src = "fn f[a, b] {\n  a <=> b;\n  while a >== 10 { a -= 1; }\n  flt: }";
    let lines: Vec<Vec<char>> = src.split('\n').map(|l| l.chars().collect()).collect();
    let tokens = tokenize(src).unwrap();
    let last = tokens.len() - 1;
    for token in &tokens[..last] {
        let spelled: String = match &token.typ {
            TokenType::Symbol(s) => s.to_str().to_string(),
            TokenType::Word(w) => w.to_str().to_string(),
            TokenType::Ident(name) => name.clone(),
            TokenType::Number(n) => format!("{}", n),
            TokenType::Eof => unreachable!(),
        };
        let width = spelled.chars().count();
        assert!(width >= 1);
        let line = &lines[token.line];
        assert!(token.pos + width <= line.len());
        let found: String = line[token.pos..token.pos + width].iter().collect();
        assert_eq!(found, spelled);
    }
    assert_eq!(tokens[last], Token::new(TokenType::Eof, 3, 8));
}
