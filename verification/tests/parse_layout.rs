use umbr::parser::{parse_document, ParseOutcome};
use umbr::tokens::{lex, Token};
use umbr::types::{Attrs, Declaration, Expr, Selector, Uheex, VNode, Value, WidgetKind};

fn parsed(code: &str) -> Uheex {
    match parse_document(code) {
        ParseOutcome::Parsed(u) => u,
        ParseOutcome::Rejected => panic!("rejected"),
        ParseOutcome::Panicked => panic!("panicked"),
    }
}

#[test]
fn lex_keywords_and_identifiers() {
    let toks: Vec<Token> = lex("window windows (:x 12 'a b' &c) ;; note\n== != && || & $ [ ] , - + * / > < .")
        .into_iter()
        .map(|s| s.token)
        .collect();
    assert_eq!(toks[0], Token::Window);
    assert_eq!(toks[1], Token::Identifier("windows".to_string()));
    assert_eq!(toks[2], Token::LParenthesis);
    assert_eq!(toks[3], Token::Colon);
    assert_eq!(toks[4], Token::Identifier("x".to_string()));
    match &toks[5] {
        Token::Number(n) => assert_eq!(n.digits(), "12"),
        other => panic!("{:?}", other),
    }
    assert_eq!(toks[6], Token::LiteralString("'a b'".to_string()));
    assert_eq!(toks[7], Token::Ampersand);
    assert_eq!(toks[8], Token::Identifier("c".to_string()));
    assert_eq!(toks[9], Token::RParenthesis);
    assert_eq!(toks[10], Token::Comment);
    assert_eq!(toks[11], Token::Eq);
    assert_eq!(toks[12], Token::NotEq);
    assert_eq!(toks[13], Token::And);
    assert_eq!(toks[14], Token::Or);
    assert_eq!(toks[15], Token::Ampersand);
    assert_eq!(toks[16], Token::Dollar);
    assert_eq!(toks.len(), 27);
}

#[test]
fn lex_errors() {
    let toks: Vec<Token> = lex("= ! | ; 'open").into_iter().map(|s| s.token).collect();
    assert_eq!(toks[0], Token::Error);
    assert_eq!(toks[1], Token::Error);
    assert_eq!(toks[2], Token::Error);
    assert_eq!(toks[3], Token::Error);
    assert_eq!(toks[4], Token::Error);
    assert_eq!(toks[5], Token::Identifier("open".to_string()));
}

const SAMPLE: &str = "\
;; lock screen
(declare (variable :name user ('alice')) (variable :name when :interval '5s' $('date')))
(window :background '#000'
  (column :align center
    (label :color '#fff' ('Hello'))
    (then :cond (&count > 0) (label ('typed')))
    (repeat :times 3 (&dot))))
(stylesheet (.title :color '#fff' (font :size 12)) (label :padding '2px'))
";

#[test]
fn parse_sample_layout() {
    let u = parsed(SAMPLE);
    assert_eq!(u.globals.len(), 2);
    match &u.globals[1] {
        VNode::Variable { name, value, interval, initial } => {
            assert_eq!(name, "when");
            assert!(initial.is_none());
            assert_eq!(interval.secs, 5);
            match value {
                Expr::Shell(c) => assert_eq!(c, "date"),
                _ => panic!("expected a shell value"),
            }
        }
        _ => panic!("expected a variable"),
    }
    match &u.root {
        VNode::Window { attributes, child } => {
            match attributes.get("background") {
                Some(Expr::Value(Value::String(s))) => assert_eq!(s, "#000"),
                _ => panic!("background"),
            }
            assert_eq!(child.len(), 1);
            match &child[0] {
                VNode::Widget { kind: WidgetKind::Column, child, .. } => assert_eq!(child.len(), 3),
                _ => panic!("column"),
            }
        }
        _ => panic!("window"),
    }
    let ss = u.stylesheet.as_ref().unwrap();
    assert_eq!(ss.rules.len(), 2);
    match &ss.rules[0].selector {
        Selector::Class(c) => assert_eq!(c, "title"),
        _ => panic!("class"),
    }
    match &ss.rules[0].declarations[1] {
        Declaration::Nested { property, value } => {
            assert_eq!(property, "font");
            assert_eq!(value.len(), 1);
        }
        _ => panic!("nested"),
    }
}

#[test]
fn parse_rejects_trailing_tokens() {
    assert!(matches!(parse_document("(label ('x')) )"), ParseOutcome::Rejected));
    assert!(matches!(parse_document("(label)"), ParseOutcome::Rejected));
    assert!(matches!(parse_document("(then (label ('x')))"), ParseOutcome::Rejected));
}

#[test]
fn parse_invalid_interval_stops() {
    let code = "(declare (variable :name a :interval 'soon' ('x'))) (label ('x'))";
    assert!(matches!(parse_document(code), ParseOutcome::Panicked));
}

#[test]
fn slint_for_sample() {
    let u = parsed(SAMPLE);
    let out = u.to_slint();
    println!("{}", out);
    assert!(out.starts_with("\n    import { LineEdit }"));
    assert!(out.contains("in-out property<string> user: \"alice\";\n"));
    assert!(out.ends_with("}"));
}

const BASE: &str = "\n    import { LineEdit } from \"std-widgets.slint\";\n    export component BaseLayout inherits Window {\n    \n    in-out property<string> passwd <=> password.text;\n\n    callback submit <=> password.accepted;\n\n    forward-focus: password;\n\n    Rectangle {\n        opacity: 0;\n        clip: true;\n        width: 10px;\n        height: 10px;\n\n        password := LineEdit {\n            enabled: true;\n            placeholder-text: \"Enter password\";\n            input-type: InputType.password;\n        }\n    }\n\n    ";

#[test]
fn slint_exact_for_sample() {
    let u = parsed(SAMPLE);
    let expected = [
        BASE,
        "in-out property<string> user: \"alice\";\n",
        "Rectangle {\n    background: #000;\n    HorizontalLayout {\n",
        "        alignment: center; \n        VerticalLayout {\n            alignment: center; \n",
        "    VerticalLayout {\n        alignment: center;\nspacing: 0;\npadding: 0;\n\n",
        "        Text {\n            text: \"Hello\";\n            color: #fff;\n\n        }\n",
        "        if (passwd.character-count > 0): Text {\n    text: \"typed\";\n    color: #FFFFFF;\n\n}\n        \n",
        "        for _ in 3: dot\n        \n",
        "    }\n}}\n}\n}",
    ]
    .concat();
    assert_eq!(u.to_slint(), expected);
}

#[test]
fn slint_exact_for_small_layout() {
    let u = parsed("(declare (variable :name n (42))) (window (label ('hi')))");
    let expected = [
        BASE,
        "in-out property<int> n: 42;\n",
        "Rectangle {\n    background: #151515;\n    HorizontalLayout {\n",
        "        alignment: center; \n        VerticalLayout {\n            alignment: center; \n",
        "    Text {\n        text: \"hi\";\n        color: #FFFFFF;\n\n    }\n",
        "}}\n}\n}",
    ]
    .concat();
    assert_eq!(u.to_slint(), expected);
}

#[test]
fn render_check_for_labels() {
    let u = parsed(SAMPLE);
    assert!(u.can_render());
    let bare = Uheex {
        globals: vec![],
        root: VNode::Widget { kind: WidgetKind::Label, attributes: Attrs::new(), child: Box::new(vec![]) },
        stylesheet: None,
    };
    assert!(!bare.can_render());
    let nested = Uheex {
        globals: vec![],
        root: VNode::Window {
            attributes: Attrs::new(),
            child: Box::new(vec![VNode::Widget {
                kind: WidgetKind::Column,
                attributes: Attrs::new(),
                child: Box::new(vec![VNode::Widget {
                    kind: WidgetKind::Label,
                    attributes: Attrs::new(),
                    child: Box::new(vec![]),
                }]),
            }]),
        },
        stylesheet: None,
    };
    assert!(!nested.can_render());
}
