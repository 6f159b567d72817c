use nexus_core::syntax::{token_type_at_offset, token_type_for_capture, Token, TokenType};

#[test]
fn test_capture_name_mapping() {
    assert_eq!(token_type_for_capture("keyword"), TokenType::Keyword);
    assert_eq!(token_type_for_capture("function"), TokenType::Function);
    assert_eq!(token_type_for_capture("function.call"), TokenType::Function);
    assert_eq!(token_type_for_capture("type"), TokenType::Type);
    assert_eq!(token_type_for_capture("type.builtin"), TokenType::Type);
    assert_eq!(token_type_for_capture("string"), TokenType::String);
    assert_eq!(token_type_for_capture("number"), TokenType::Number);
    assert_eq!(token_type_for_capture("comment"), TokenType::Comment);
    assert_eq!(token_type_for_capture("operator"), TokenType::Operator);
    assert_eq!(token_type_for_capture("variable"), TokenType::Variable);
    assert_eq!(token_type_for_capture("property"), TokenType::Property);
    assert_eq!(token_type_for_capture("parameter"), TokenType::Parameter);
    assert_eq!(token_type_for_capture("constant"), TokenType::Constant);
    assert_eq!(token_type_for_capture("constant.builtin"), TokenType::Constant);
    assert_eq!(token_type_for_capture("something.else"), TokenType::Normal);
}

#[test]
fn test_token_type_at_offset() {
    let tokens = vec![
        Token { start: 0, end: 2, token_type: TokenType::Keyword },
        Token { start: 3, end: 7, token_type: TokenType::Function },
    ];
    assert_eq!(token_type_at_offset(0, &tokens), TokenType::Keyword);
    assert_eq!(token_type_at_offset(1, &tokens), TokenType::Keyword);
    assert_eq!(token_type_at_offset(2, &tokens), TokenType::Normal);
    assert_eq!(token_type_at_offset(5, &tokens), TokenType::Function);
    assert_eq!(token_type_at_offset(9, &tokens), TokenType::Normal);
}

#[test]
fn test_first_containing_token_wins() {
    let tokens = vec![
        Token { start: 0, end: 5, token_type: TokenType::Comment },
        Token { start: 1, end: 2, token_type: TokenType::Number },
    ];
    assert_eq!(token_type_at_offset(1, &tokens), TokenType::Comment);
}
