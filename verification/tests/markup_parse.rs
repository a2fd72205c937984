use umbr::markup::{lex_markup, parse_markup, Attr, SExpr, Token, Value};

#[test]
fn markup_tokens() {
    let toks = lex_markup("<% @user-name %> <ui.box :a=\"x y\" :b={@v_1} /> - = % {@ ");
    assert_eq!(toks[0], Token::BlockBindingOpen);
    assert_eq!(toks[1], Token::BlockBindingValue("@user-name".to_string()));
    assert_eq!(toks[2], Token::BlockBindingClose);
    assert_eq!(toks[3], Token::TagStart);
    assert_eq!(toks[4], Token::Identifier("ui".to_string()));
    assert_eq!(toks[5], Token::Dot);
    assert_eq!(toks[6], Token::Identifier("box".to_string()));
    assert_eq!(toks[7], Token::Colon);
    assert_eq!(toks[8], Token::Identifier("a".to_string()));
    assert_eq!(toks[9], Token::Equals);
    assert_eq!(toks[10], Token::LiteralString("\"x y\"".to_string()));
    assert_eq!(toks[14], Token::Binding("{@v_1}".to_string()));
    assert_eq!(toks[15], Token::Slash);
    assert_eq!(toks[16], Token::TagEnd);
    assert_eq!(toks[17], Token::Hifen);
    assert_eq!(toks[18], Token::Equals);
    assert_eq!(toks[19], Token::Error);
    assert_eq!(toks[20], Token::Error);
    assert_eq!(toks[21], Token::Error);
    assert_eq!(toks.len(), 22);
}

#[test]
fn markup_token_text() {
    assert_eq!(Token::BlockBindingOpen.text(), "<%");
    assert_eq!(Token::Colon.text(), ";");
    assert_eq!(Token::Identifier("ui".into()).text(), "ui");
    assert_eq!(Token::Error.text(), "<error>");
}

#[test]
fn markup_block_binding() {
    match parse_markup("<% @user %>") {
        Some(SExpr::Binding(b)) => assert_eq!(b, "user"),
        other => panic!("{:?}", other),
    }
}

#[test]
fn markup_element_with_children() {
    let code = "<ui.box :color=\"red\" :text={@msg}>\n  <ui.label/>\n  <% @who %>\n</ui.other>";
    match parse_markup(code) {
        Some(SExpr::Element { name, attributes, children, self_closing }) => {
            assert_eq!(name, "box");
            assert!(!self_closing);
            assert_eq!(attributes.len(), 2);
            match &attributes[0] {
                Attr::Property { name, value: Value::Literal(v) } => {
                    assert_eq!(name, "color");
                    assert_eq!(v, "red");
                }
                other => panic!("{:?}", other),
            }
            match &attributes[1] {
                Attr::Property { name, value: Value::Binding(v) } => {
                    assert_eq!(name, "text");
                    assert_eq!(v, "{@msg}");
                }
                other => panic!("{:?}", other),
            }
            assert_eq!(children.len(), 2);
            match &children[0] {
                SExpr::Element { name, children, self_closing, .. } => {
                    assert_eq!(name, "label");
                    assert!(self_closing);
                    assert!(children.is_empty());
                }
                other => panic!("{:?}", other),
            }
            assert!(matches!(&children[1], SExpr::Binding(b) if b == "who"));
        }
        other => panic!("{:?}", other),
    }
}

#[test]
fn markup_rejects() {
    assert!(parse_markup("").is_none());
    assert!(parse_markup("<ui.a/> <ui.b/>").is_none());
    assert!(parse_markup("<box/>").is_none());
    assert!(parse_markup("<ui.a :x/>").is_none());
    assert!(parse_markup("<ui.a>").is_none());
    assert!(parse_markup("<ui.a/> %").is_none());
    assert!(parse_markup("<% @ %>").is_none());
}

#[test]
fn markup_binding_names_take_unicode_word_characters() {
    let toks = lex_markup("@usuário-1 @ñ\u{301}_x @a!b");
    assert_eq!(toks[0], Token::BlockBindingValue("@usuário-1".to_string()));
    assert_eq!(toks[1], Token::BlockBindingValue("@ñ\u{301}_x".to_string()));
    assert_eq!(toks[2], Token::BlockBindingValue("@a".to_string()));
    assert_eq!(toks[3], Token::Error);
    match parse_markup("<% @usuário %>") {
        Some(SExpr::Binding(b)) => assert_eq!(b, "usuário"),
        other => panic!("{:?}", other),
    }
}
