use umbr::duration::duration_outcome;
use umbr::parser::{parse_document, ParseOutcome};
use umbr::tokens::{lex, Token};
use umbr::types::{DurationHuman, Expr, VNode, Value};

fn parsed(code: &str) -> umbr::types::Uheex {
    match parse_document(code) {
        ParseOutcome::Parsed(u) => u,
        _ => panic!("not parsed"),
    }
}

#[test]
fn durations() {
    let d = DurationHuman::from_str("500ms").unwrap();
    assert_eq!((d.0.secs, d.0.nanos), (0, 500_000_000));
    let d = DurationHuman::from_str("1500ms").unwrap();
    assert_eq!((d.0.secs, d.0.nanos), (1, 500_000_000));
    let d = DurationHuman::from_str(" 5s \n").unwrap();
    assert_eq!((d.0.secs, d.0.nanos), (5, 0));
    let d = DurationHuman::from_str("2m").unwrap();
    assert_eq!(d.0.secs, 120);
    let d = DurationHuman::from_str("1h").unwrap();
    assert_eq!(d.0.secs, 3600);
    let d = DurationHuman::from_str("+7s").unwrap();
    assert_eq!(d.0.secs, 7);
}

#[test]
fn invalid_durations() {
    assert_eq!(DurationHuman::from_str(" soon ").err().unwrap(), "Invalid duration: soon");
    assert_eq!(DurationHuman::from_str("ms").err().unwrap(), "Invalid duration: ms");
    assert_eq!(DurationHuman::from_str("5 s").err().unwrap(), "Invalid duration: 5 s");
    assert_eq!(DurationHuman::from_str("-5s").err().unwrap(), "Invalid duration: -5s");
    assert_eq!(DurationHuman::from_str("").err().unwrap(), "Invalid duration: ");
}

#[test]
fn overflowing_minutes_are_reported_before_reading() {
    assert!(!matches!(duration_outcome("18446744073709551615m"), umbr::duration::DurationOutcome::Span(_)));
    assert!(matches!(duration_outcome("18446744073709551615s"), umbr::duration::DurationOutcome::Span(_)));
}

#[test]
fn token_text() {
    assert_eq!(Token::Window.text(), "window");
    assert_eq!(Token::Colon.text(), ":");
    assert_eq!(Token::Comment.text(), "<comment>");
    assert_eq!(Token::LiteralString("'a'".into()).text(), "'a'");
    assert_eq!(Token::NotEq.text(), "!=");
}

#[test]
fn shell_variables_take_their_output() {
    let mut u = parsed(
        "(declare (variable :name a ('x')) (variable :name t :interval '1s' $('date')) (variable :name w $('whoami'))) (label ('x'))",
    );
    assert_eq!(u.shell_commands(), vec!["date".to_string(), "whoami".to_string()]);
    u.resolve_vars(&vec![b"  10:00\n".to_vec(), vec![0x72, 0x6f, 0x6f, 0x74, 0xff]]);
    match &u.globals[1] {
        VNode::Variable { name, value: Expr::Value(Value::String(v)), interval, .. } => {
            assert_eq!(name, "t");
            assert_eq!(v, "10:00");
            assert_eq!(interval.secs, 1);
        }
        other => panic!("{:?}", other),
    }
    match &u.globals[2] {
        VNode::Variable { value: Expr::Value(Value::String(v)), .. } => assert_eq!(v, "root\u{fffd}"),
        other => panic!("{:?}", other),
    }
    match &u.globals[0] {
        VNode::Variable { value: Expr::Value(Value::String(v)), .. } => assert_eq!(v, "x"),
        other => panic!("{:?}", other),
    }
    assert!(u.shell_commands().is_empty());
    u.resolve_vars(&vec![]);
    assert_eq!(u.globals.len(), 3);
}

#[test]
fn token_text_reads_back() {
    let code = "(label :x 'a b' &v == != && || > < 42 window ident_1 [ ] , - + * / $ . :)";
    for spanned in lex(code) {
        let text = spanned.token.text();
        let again: Vec<Token> = lex(&text).into_iter().map(|s| s.token).collect();
        assert_eq!(again, vec![spanned.token.clone()]);
    }
}
