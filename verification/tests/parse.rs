use uiua::ast::{BinOp, Binding, Block, Expr, Item, LogicOp, Pattern};
use uiua::error::{Expectation, ParseError};
use uiua::parser::{parse, Parser};
use uiua::span::{Loc, Sp, Span};
use uiua::token::{Keyword, LexError, Simple, Token};

fn simple_at(text: &[char], i: usize) -> Option<(Simple, usize)> {
    let two: String = text[i..text.len().min(i + 2)].iter().collect();
    let found = match two.as_str() {
        "!=" => Some(Simple::NotEqual),
        "<=" => Some(Simple::LessEqual),
        ">=" => Some(Simple::GreaterEqual),
        ".." => Some(Simple::Elipses),
        _ => None,
    };
    if let Some(simple) = found {
        return Some((simple, 2));
    }
    let simple = match text[i] {
        '(' => Simple::OpenParen,
        ')' => Simple::CloseParen,
        '[' => Simple::OpenBracket,
        ']' => Simple::CloseBracket,
        '{' => Simple::OpenCurly,
        '}' => Simple::CloseCurly,
        ':' => Simple::Colon,
        ';' => Simple::SemiColon,
        ',' => Simple::Comma,
        '=' => Simple::Equal,
        '<' => Simple::Less,
        '>' => Simple::Greater,
        '+' => Simple::Plus,
        '-' => Simple::Minus,
        '*' => Simple::Star,
        '/' => Simple::Slash,
        _ => return None,
    };
    Some((simple, 1))
}

fn word(text: &str) -> Token {
    match text {
        "fn" => Token::Keyword(Keyword::Fn),
        "let" => Token::Keyword(Keyword::Let),
        "if" => Token::Keyword(Keyword::If),
        "then" => Token::Keyword(Keyword::Then),
        "else" => Token::Keyword(Keyword::Else),
        "and" => Token::Keyword(Keyword::And),
        "or" => Token::Keyword(Keyword::Or),
        "true" => Token::Keyword(Keyword::True),
        "false" => Token::Keyword(Keyword::False),
        _ => Token::Ident(text.to_string()),
    }
}

/// Splits ASCII source text into tokens, each with the span it was read from.
fn lex(source: &str) -> Vec<Sp<Token>> {
    let text: Vec<char> = source.chars().collect();
    let mut tokens = Vec::new();
    let mut i = 0;
    let mut line = 1;
    let mut col = 1;
    while i < text.len() {
        let c = text[i];
        if c == '\n' {
            i += 1;
            line += 1;
            col = 1;
            continue;
        }
        if c.is_whitespace() {
            i += 1;
            col += 1;
            continue;
        }
        let mut j = i;
        let token = if text[i..].starts_with(&['/', '/']) {
            while j < text.len() && text[j] != '\n' {
                j += 1;
            }
            if text[i..].starts_with(&['/', '/', '/']) {
                Token::DocComment(text[i + 3..j].iter().collect())
            } else {
                Token::Comment(text[i + 2..j].iter().collect())
            }
        } else if c.is_ascii_digit() {
            while j < text.len() && text[j].is_ascii_digit() {
                j += 1;
            }
            if j + 1 < text.len() && text[j] == '.' && text[j + 1].is_ascii_digit() {
                j += 1;
                while j < text.len() && text[j].is_ascii_digit() {
                    j += 1;
                }
                Token::Real(text[i..j].iter().collect())
            } else {
                Token::Int(text[i..j].iter().collect())
            }
        } else if c.is_ascii_alphabetic() || c == '_' {
            while j < text.len() && (text[j].is_ascii_alphanumeric() || text[j] == '_') {
                j += 1;
            }
            word(&text[i..j].iter().collect::<String>())
        } else {
            let (simple, width) = simple_at(&text, i).expect("a character of the language");
            j = i + width;
            Token::Simple(simple)
        };
        let start = Loc { pos: i, line, col };
        let end = Loc { pos: j, line, col: col + (j - i) };
        tokens.push(Sp { value: token, span: Span { start, end } });
        col += j - i;
        i = j;
    }
    tokens
}

fn parse_text(source: &str) -> (Vec<Item>, Vec<Sp<ParseError>>) {
    parse(Ok(lex(source)))
}

/// The span from byte `start` to byte `end` of a text of one line.
fn at(start: usize, end: usize) -> Span {
    Span {
        start: Loc { pos: start, line: 1, col: start + 1 },
        end: Loc { pos: end, line: 1, col: end + 1 },
    }
}

fn op_text(op: BinOp) -> &'static str {
    match op {
        BinOp::RangeEx => "..",
        BinOp::Eq => "=",
        BinOp::Ne => "!=",
        BinOp::Lt => "<",
        BinOp::Le => "<=",
        BinOp::Gt => ">",
        BinOp::Ge => ">=",
        BinOp::Add => "+",
        BinOp::Sub => "-",
        BinOp::Mul => "*",
        BinOp::Div => "/",
    }
}

fn show_pattern(pattern: &Pattern) -> String {
    match pattern {
        Pattern::Ident(name) => name.clone(),
        Pattern::List(items) => {
            let items: Vec<String> = items.iter().map(|p| show_pattern(&p.value)).collect();
            format!("[{}]", items.join(" "))
        }
    }
}

fn show_binding(binding: &Binding) -> String {
    format!("(let {} {})", show_pattern(&binding.pattern.value), show(&binding.expr.value))
}

fn show_block(block: &Block) -> String {
    let mut parts: Vec<String> = block.bindings.iter().map(show_binding).collect();
    parts.push(show(&block.expr.value));
    format!("{{{}}}", parts.join(" "))
}

/// The shape of an expression, without spans.
fn show(expr: &Expr) -> String {
    match expr {
        Expr::Ident(name) => name.clone(),
        Expr::Int(digits) => digits.clone(),
        Expr::Real(digits) => digits.clone(),
        Expr::Bool(b) => format!("{b}"),
        Expr::Unit => "()".to_string(),
        Expr::Parened(inner) => format!("(paren {})", show(&inner.value)),
        Expr::List(items) => {
            let items: Vec<String> = items.iter().map(|e| show(&e.value)).collect();
            format!("[{}]", items.join(" "))
        }
        Expr::Call(call) => {
            let args: Vec<String> = call.args.iter().map(|e| show(&e.value)).collect();
            format!("(call {} {})", show(&call.func.value), args.join(" "))
        }
        Expr::Bin(bin) => format!(
            "({} {} {})",
            op_text(bin.op.value),
            show(&bin.left.value),
            show(&bin.right.value)
        ),
        Expr::Logic(logic) => {
            let op = match logic.op.value {
                LogicOp::And => "and",
                LogicOp::Or => "or",
            };
            format!("({} {} {})", op, show(&logic.left.value), show(&logic.right.value))
        }
        Expr::If(cond) => format!(
            "(if {} {} {})",
            show(&cond.cond.value),
            show_block(&cond.if_true),
            show_block(&cond.if_false)
        ),
    }
}

/// Parses a text that holds one expression statement and nothing else.
fn expr_of(source: &str) -> Sp<Expr> {
    let (mut items, errors) = parse_text(source);
    assert_eq!(errors, vec![]);
    assert_eq!(items.len(), 1);
    match items.remove(0) {
        Item::Expr(expr) => expr,
        item => panic!("not an expression: {item:?}"),
    }
}

fn expected(expectations: Vec<Expectation>, found: Option<Sp<Token>>, span: Span) -> Sp<ParseError> {
    Sp { value: ParseError::Expected(expectations, found.map(Box::new)), span }
}

fn simple(simple: Simple, start: usize, end: usize) -> Sp<Token> {
    Sp { value: Token::Simple(simple), span: at(start, end) }
}

#[test]
fn single_binding_yields_one_item_with_spans_inside_the_statement() {
    let source = "let x = 1;";
    let (items, errors) = parse_text(source);
    assert_eq!(errors, vec![]);
    assert_eq!(
        items,
        vec![Item::Binding(Binding {
            pattern: Sp { value: Pattern::Ident("x".to_string()), span: at(4, 5) },
            expr: Sp { value: Expr::Int("1".to_string()), span: at(8, 9) },
        })]
    );
    let statement = at(0, source.len());
    let Item::Binding(binding) = &items[0] else { unreachable!() };
    for span in [binding.pattern.span, binding.expr.span] {
        assert!(statement.start.pos <= span.start.pos && span.end.pos <= statement.end.pos);
        assert_ne!(span, statement);
    }
}

#[test]
fn binding_with_a_list_pattern() {
    let (items, errors) = parse_text("let [a, [b, c],] = [1, [2, 3]];");
    assert_eq!(errors, vec![]);
    assert_eq!(items.len(), 1);
    let Item::Binding(binding) = &items[0] else { panic!("not a binding") };
    assert_eq!(show_binding(binding), "(let [a [b c]] [1 [2 3]])");
    assert_eq!(binding.pattern.span, at(4, 16));
    assert_eq!(binding.expr.span, at(19, 30));
}

#[test]
fn multiplication_binds_tighter_than_addition() {
    assert_eq!(show(&expr_of("1+2*3;").value), "(+ 1 (* 2 3))");
    assert_eq!(show(&expr_of("1*2+3;").value), "(+ (* 1 2) 3)");
}

#[test]
fn operators_of_one_level_group_to_the_left() {
    assert_eq!(show(&expr_of("1-2-3;").value), "(- (- 1 2) 3)");
    assert_eq!(show(&expr_of("8/4*2/1;").value), "(/ (* (/ 8 4) 2) 1)");
}

#[test]
fn levels_nest_from_range_down_to_multiplication() {
    assert_eq!(show(&expr_of("a..b<c+d*e;").value), "(.. a (< b (+ c (* d e))))");
    assert_eq!(show(&expr_of("a*b+c<d..e;").value), "(.. (< (+ (* a b) c) d) e)");
    assert_eq!(show(&expr_of("a = b != c;").value), "(!= (= a b) c)");
    assert_eq!(show(&expr_of("a <= b >= c > d;").value), "(> (>= (<= a b) c) d)");
}

#[test]
fn call_binds_tighter_than_any_operator() {
    let expr = expr_of("f x + 1;");
    assert_eq!(show(&expr.value), "(+ (call f x) 1)");
    let Expr::Bin(bin) = &expr.value else { unreachable!() };
    assert_eq!(bin.left.span, at(0, 3));
    assert_eq!(bin.op, Sp { value: BinOp::Add, span: at(4, 5) });
}

#[test]
fn call_takes_every_term_that_follows() {
    assert_eq!(show(&expr_of("f x 1 (a + b) [c] ();").value), "(call f x 1 (paren (+ a b)) [c] ())");
    assert_eq!(show(&expr_of("f;").value), "f");
}

#[test]
fn node_spans_run_from_leftmost_to_rightmost_child() {
    let expr = expr_of("a + b * c;");
    assert_eq!(expr.span, at(0, 9));
    let Expr::Bin(sum) = &expr.value else { unreachable!() };
    assert_eq!(sum.left.span, at(0, 1));
    assert_eq!(sum.right.span, at(4, 9));
    assert_eq!(expr.span.start, sum.left.span.start);
    assert_eq!(expr.span.end, sum.right.span.end);

    let expr = expr_of("a and b;");
    let Expr::Logic(logic) = &expr.value else { unreachable!() };
    assert_eq!(logic.op, Sp { value: LogicOp::And, span: at(2, 5) });
    assert_eq!(expr.span.start, logic.left.span.start);
    assert_eq!(expr.span.end, logic.right.span.end);
    assert_eq!(expr.span, at(0, 7));

    let expr = expr_of("f x yy;");
    let Expr::Call(call) = &expr.value else { unreachable!() };
    assert_eq!(expr.span.start, call.func.span.start);
    assert_eq!(expr.span.end, call.args[1].span.end);
    assert_eq!(expr.span, at(0, 6));
}

#[test]
fn grouping_is_kept_in_the_tree() {
    let grouped = expr_of("(1+2);");
    let plain = expr_of("1+2;");
    assert_eq!(show(&grouped.value), "(paren (+ 1 2))");
    assert_eq!(show(&plain.value), "(+ 1 2)");
    assert_ne!(grouped.value, plain.value);
    let Expr::Parened(inner) = &grouped.value else { unreachable!() };
    assert_eq!(inner.span, at(1, 4));
    assert_eq!(grouped.span, at(0, 5));
}

#[test]
fn unit_spans_both_parentheses() {
    let expr = expr_of("( );");
    assert_eq!(expr, Sp { value: Expr::Unit, span: at(0, 3) });
}

#[test]
fn two_broken_statements_give_two_diagnostics() {
    let (items, errors) = parse_text("let 5; let 6;");
    assert_eq!(
        errors,
        vec![
            expected(
                vec![Expectation::Pattern],
                Some(Sp { value: Token::Int("5".to_string()), span: at(4, 5) }),
                at(4, 5),
            ),
            expected(
                vec![Expectation::Pattern],
                Some(Sp { value: Token::Int("6".to_string()), span: at(11, 12) }),
                at(11, 12),
            ),
        ]
    );
    assert_eq!(
        items,
        vec![
            Item::Expr(Sp { value: Expr::Int("5".to_string()), span: at(4, 5) }),
            Item::Expr(Sp { value: Expr::Int("6".to_string()), span: at(11, 12) }),
        ]
    );
}

#[test]
fn reading_stops_where_no_item_starts_behind_a_diagnostic() {
    let (items, errors) = parse_text("(1; (2;");
    assert_eq!(items, vec![]);
    assert_eq!(
        errors,
        vec![
            expected(
                vec![Expectation::Simple(Simple::CloseParen)],
                Some(simple(Simple::SemiColon, 2, 3)),
                at(2, 3),
            ),
            expected(vec![Expectation::Eof], Some(simple(Simple::SemiColon, 2, 3)), at(2, 3)),
        ]
    );
}

#[test]
fn empty_list_spans_both_brackets() {
    let expr = expr_of("[];");
    assert_eq!(expr, Sp { value: Expr::List(vec![]), span: at(0, 2) });
    assert!(expr.span.start.pos < expr.span.end.pos);
}

#[test]
fn trailing_comma_changes_nothing_but_the_end_of_the_list() {
    let with = expr_of("[1, 2, 3,];");
    let without = expr_of("[1, 2, 3];");
    let (Expr::List(a), Expr::List(b)) = (&with.value, &without.value) else { unreachable!() };
    assert_eq!(a, b);
    assert_eq!(show(&with.value), "[1 2 3]");
    assert_eq!(with.span, at(0, 10));
    assert_eq!(without.span, at(0, 9));
}

#[test]
fn conditional_with_bare_branches() {
    let expr = expr_of("if c then b1 else b2;");
    assert_eq!(
        expr,
        Sp {
            value: Expr::If(Box::new(uiua::ast::IfExpr {
                cond: Sp { value: Expr::Ident("c".to_string()), span: at(3, 4) },
                if_true: Block {
                    bindings: vec![],
                    expr: Sp { value: Expr::Ident("b1".to_string()), span: at(10, 12) },
                },
                if_false: Block {
                    bindings: vec![],
                    expr: Sp { value: Expr::Ident("b2".to_string()), span: at(18, 20) },
                },
            })),
            span: at(0, 20),
        }
    );
}

#[test]
fn conditional_branches_are_blocks() {
    let expr = expr_of("if a < b then let c = a; c + 1 else if d then 1 else 2;");
    assert_eq!(
        show(&expr.value),
        "(if (< a b) {(let c a) (+ c 1)} {(if d {1} {2})})"
    );
}

#[test]
fn a_second_or_is_not_read() {
    let (items, errors) = parse_text("a or b or c;");
    assert_eq!(items, vec![]);
    let second_or = Sp { value: Token::Keyword(Keyword::Or), span: at(7, 9) };
    assert_eq!(
        errors,
        vec![
            expected(
                vec![Expectation::Simple(Simple::SemiColon)],
                Some(Sp { value: Token::Keyword(Keyword::Or), span: at(7, 9) }),
                at(7, 9),
            ),
            expected(vec![Expectation::Eof], Some(second_or), at(7, 9)),
        ]
    );
}

#[test]
fn a_second_and_is_not_read() {
    let (items, errors) = parse_text("a and b and c;");
    assert_eq!(items, vec![]);
    assert_eq!(errors.len(), 2);
    assert_eq!(errors[0].span, at(8, 11));
    assert_eq!(show(&expr_of("a and b or c and d;").value), "(or (and a b) (and c d))");
    assert_eq!(show(&expr_of("a + 1 and b;").value), "(and (+ a 1) b)");
}

#[test]
fn empty_input_has_no_items_and_no_diagnostics() {
    assert_eq!(parse_text(""), (vec![], vec![]));
    assert_eq!(parse_text("// nothing here\n// at all"), (vec![], vec![]));
}

#[test]
fn lexical_error_is_the_only_diagnostic() {
    let span = at(3, 4);
    let (items, errors) = parse(Err(Sp {
        value: LexError { message: "unexpected character".to_string() },
        span,
    }));
    assert_eq!(items, vec![]);
    assert_eq!(
        errors,
        vec![Sp {
            value: ParseError::Lex(LexError { message: "unexpected character".to_string() }),
            span,
        }]
    );
}

#[test]
fn tokens_left_over_ask_for_the_end_of_the_input() {
    let (items, errors) = parse_text("1; )");
    assert_eq!(items, vec![Item::Expr(Sp { value: Expr::Int("1".to_string()), span: at(0, 1) })]);
    assert_eq!(
        errors,
        vec![expected(vec![Expectation::Eof], Some(simple(Simple::CloseParen, 3, 4)), at(3, 4))]
    );
}

#[test]
fn diagnostic_at_the_end_of_the_input_sits_behind_the_last_token() {
    let (items, errors) = parse_text("let x =");
    assert_eq!(items, vec![]);
    assert_eq!(errors, vec![expected(vec![Expectation::Expr], None, at(7, 7))]);
}

#[test]
fn missing_terminator_is_reported() {
    let (items, errors) = parse_text("let x = 1");
    assert_eq!(items, vec![]);
    assert_eq!(
        errors,
        vec![expected(vec![Expectation::Simple(Simple::SemiColon)], None, at(9, 9))]
    );
}

#[test]
fn comments_are_skipped_everywhere() {
    let (items, errors) = parse_text("// before\n1 // inside\n + 2; // behind");
    assert_eq!(errors, vec![]);
    assert_eq!(items.len(), 1);
    let Item::Expr(expr) = &items[0] else { panic!("not an expression") };
    assert_eq!(show(&expr.value), "(+ 1 2)");
}

#[test]
fn diagnostic_names_the_token_behind_the_comments() {
    let (_, errors) = parse_text("let // why\n = 1;");
    assert_eq!(errors.len(), 2);
    let ParseError::Expected(expectations, found) = &errors[0].value else { unreachable!() };
    assert_eq!(expectations, &vec![Expectation::Pattern]);
    assert_eq!(found.as_ref().unwrap().value, Token::Simple(Simple::Equal));
    assert_eq!(errors[0].span, found.as_ref().unwrap().span);
}

#[test]
fn function_definition_with_documentation() {
    let (items, errors) = parse_text("/// Adds\n/// numbers\nfn add x y: let z = x; z + y;");
    assert_eq!(errors, vec![]);
    assert_eq!(items.len(), 1);
    let Item::FunctionDef(def) = &items[0] else { panic!("not a function") };
    let doc = def.doc.as_ref().unwrap();
    assert_eq!(doc.value, " Adds numbers");
    assert_eq!(doc.span.start, Loc { pos: 0, line: 1, col: 1 });
    assert_eq!(doc.span.end, Loc { pos: 20, line: 2, col: 12 });
    assert_eq!(def.name.value, "add");
    assert_eq!(def.func.id, uiua::ast::FunctionId::Named("add".to_string()));
    let params: Vec<&str> = def.func.params.iter().map(|p| p.value.as_str()).collect();
    assert_eq!(params, vec!["x", "y"]);
    assert_eq!(show_block(&def.func.body), "{(let z x) (+ z y)}");
}

#[test]
fn function_definition_without_parameters_or_documentation() {
    let (items, errors) = parse_text("fn one: 1;");
    assert_eq!(errors, vec![]);
    let Item::FunctionDef(def) = &items[0] else { panic!("not a function") };
    assert_eq!(def.doc, None);
    assert!(def.func.params.is_empty());
    assert_eq!(show_block(&def.func.body), "{1}");
}

#[test]
fn function_definition_needs_name_colon_and_body() {
    let (_, errors) = parse_text("fn 1;");
    assert_eq!(
        errors[0],
        expected(
            vec![Expectation::Ident],
            Some(Sp { value: Token::Int("1".to_string()), span: at(3, 4) }),
            at(3, 4),
        )
    );
    let (_, errors) = parse_text("fn f x;");
    assert_eq!(
        errors[0],
        expected(
            vec![Expectation::Simple(Simple::Colon)],
            Some(simple(Simple::SemiColon, 6, 7)),
            at(6, 7),
        )
    );
    let (_, errors) = parse_text("fn f: ;");
    assert_eq!(
        errors[0],
        expected(vec![Expectation::Expr], Some(simple(Simple::SemiColon, 6, 7)), at(6, 7))
    );
}

#[test]
fn documentation_without_a_function_is_passed_over() {
    let (items, errors) = parse_text("/// lonely\nlet x = 1;\n/// lost\n// and\n/// found\n2;\n/// last");
    assert_eq!(errors, vec![]);
    assert_eq!(items.len(), 2);
    let Item::Binding(binding) = &items[0] else { panic!("not a binding") };
    assert_eq!(show_binding(binding), "(let x 1)");
    assert_eq!(binding.pattern.span.start, Loc { pos: 15, line: 2, col: 5 });
    let Item::Expr(expr) = &items[1] else { panic!("not an expression") };
    assert_eq!(show(&expr.value), "2");
    assert_eq!(parse_text("/// nothing but documentation"), (vec![], vec![]));
}

#[test]
fn documentation_inside_an_item_is_in_the_way() {
    let (items, errors) = parse_text("1 + /// why\n 2;");
    assert_eq!(items.len(), 1);
    let Item::Expr(expr) = &items[0] else { panic!("not an expression") };
    assert_eq!(show(&expr.value), "2");
    assert_eq!(errors.len(), 1);
    let ParseError::Expected(expectations, found) = &errors[0].value else { unreachable!() };
    assert_eq!(expectations, &vec![Expectation::Expr]);
    assert_eq!(found.as_ref().unwrap().value, Token::DocComment(" why".to_string()));
    assert_eq!(errors[0].value.to_string(), "expected `expression`, found `/// why`");
}

#[test]
fn item_rule_gives_back_documentation_when_nothing_follows() {
    let mut parser = Parser::new(lex("/// a\n)"));
    assert_eq!(parser.try_item(), Ok(None));
    assert_eq!(parser.index(), 0);
    let mut parser = Parser::new(lex("/// a\nx; y"));
    assert_eq!(
        parser.try_item(),
        Ok(Some(Item::Expr(Sp {
            value: Expr::Ident("x".to_string()),
            span: Span {
                start: Loc { pos: 6, line: 2, col: 1 },
                end: Loc { pos: 7, line: 2, col: 2 },
            },
        })))
    );
    assert_eq!(parser.index(), 3);
}

#[test]
fn literals_and_identifiers_are_terms() {
    assert_eq!(expr_of("12;"), Sp { value: Expr::Int("12".to_string()), span: at(0, 2) });
    assert_eq!(expr_of("1.5;"), Sp { value: Expr::Real("1.5".to_string()), span: at(0, 3) });
    assert_eq!(expr_of("true;"), Sp { value: Expr::Bool(true), span: at(0, 4) });
    assert_eq!(expr_of("false;"), Sp { value: Expr::Bool(false), span: at(0, 5) });
    assert_eq!(expr_of("abc;"), Sp { value: Expr::Ident("abc".to_string()), span: at(0, 3) });
}

#[test]
fn operator_needs_a_right_operand() {
    let (items, errors) = parse_text("1 + ;");
    assert_eq!(items, vec![]);
    assert_eq!(
        errors[0],
        expected(vec![Expectation::Expr], Some(simple(Simple::SemiColon, 4, 5)), at(4, 5))
    );
    let (_, errors) = parse_text("a and ;");
    assert_eq!(
        errors[0],
        expected(vec![Expectation::Expr], Some(simple(Simple::SemiColon, 6, 7)), at(6, 7))
    );
}

#[test]
fn conditional_needs_then_and_else() {
    let (_, errors) = parse_text("if a b;");
    assert_eq!(
        errors[0],
        expected(
            vec![Expectation::Keyword(Keyword::Then)],
            Some(simple(Simple::SemiColon, 6, 7)),
            at(6, 7),
        )
    );
    let (_, errors) = parse_text("if a then b;");
    assert_eq!(
        errors[0],
        expected(
            vec![Expectation::Keyword(Keyword::Else)],
            Some(simple(Simple::SemiColon, 11, 12)),
            at(11, 12),
        )
    );
}

#[test]
fn list_needs_its_closing_bracket() {
    let (_, errors) = parse_text("[1, 2;");
    assert_eq!(
        errors[0],
        expected(
            vec![Expectation::Simple(Simple::CloseBracket)],
            Some(simple(Simple::SemiColon, 5, 6)),
            at(5, 6),
        )
    );
    let (_, errors) = parse_text("let [a b] = 1;");
    let ParseError::Expected(expectations, _) = &errors[0].value else { unreachable!() };
    assert_eq!(expectations, &vec![Expectation::Simple(Simple::CloseBracket)]);
    assert_eq!(errors[0].span, at(7, 8));
}

#[test]
fn binding_reads_the_first_equal_sign_as_its_own() {
    let (items, errors) = parse_text("let x = a = b;");
    assert_eq!(errors, vec![]);
    let Item::Binding(binding) = &items[0] else { panic!("not a binding") };
    assert_eq!(show_binding(binding), "(let x (= a b))");
}

#[test]
fn trial_rules_leave_the_position_when_nothing_matches() {
    let mut parser = Parser::new(lex("// c\n + 1"));
    assert_eq!(parser.try_term(), Ok(None));
    assert_eq!(parser.index(), 0);
    assert_eq!(parser.try_pattern(), Ok(None));
    assert_eq!(parser.try_binding(), Ok(None));
    assert_eq!(parser.try_function_def(), Ok(None));
    assert_eq!(parser.try_item(), Ok(None));
    assert_eq!(parser.try_ident(), None);
    assert_eq!(parser.try_exact(&Token::Simple(Simple::Minus)), None);
    assert_eq!(parser.index(), 0);
    assert_eq!(parser.try_exact(&Token::Simple(Simple::Plus)), Some(Span {
        start: Loc { pos: 6, line: 2, col: 2 },
        end: Loc { pos: 7, line: 2, col: 3 },
    }));
    assert_eq!(parser.index(), 2);
}

#[test]
fn function_definition_gives_back_the_documentation_without_fn() {
    let mut parser = Parser::new(lex("/// a\n/// b\n1;"));
    assert_eq!(parser.try_function_def(), Ok(None));
    assert_eq!(parser.index(), 0);
    let doc = parser.doc_comment().unwrap();
    assert_eq!(doc.value, " a b");
    assert_eq!(parser.index(), 2);
}

#[test]
fn expect_reports_without_moving() {
    let mut parser = Parser::new(lex("a b"));
    let error = parser.expect(Simple::Comma).unwrap_err();
    assert_eq!(
        error,
        expected(
            vec![Expectation::Simple(Simple::Comma)],
            Some(Sp { value: Token::Ident("a".to_string()), span: at(0, 1) }),
            at(0, 1),
        )
    );
    assert_eq!(parser.index(), 0);
    let error = parser.expect(Keyword::Then).unwrap_err();
    assert_eq!(error.value, ParseError::Expected(
        vec![Expectation::Keyword(Keyword::Then)],
        Some(Box::new(Sp { value: Token::Ident("a".to_string()), span: at(0, 1) })),
    ));
    assert!(parser.errors().is_empty());
}

#[test]
fn last_span_points_at_the_next_token_or_behind_the_last() {
    let mut parser = Parser::new(lex("a // c"));
    assert_eq!(parser.last_span(), at(0, 1));
    assert_eq!(parser.peek().map(|t| t.span), Some(at(0, 1)));
    parser.advance();
    assert_eq!(parser.index(), 1);
    assert_eq!(parser.peek(), None);
    assert_eq!(parser.last_span(), at(6, 6));
    parser.advance();
    assert_eq!(parser.index(), 2);
}

#[test]
fn expected_continue_records_a_diagnostic_without_a_token() {
    let mut parser = Parser::new(lex("a"));
    parser.expected_continue(vec![Expectation::Block, Expectation::Type]);
    assert_eq!(
        parser.errors(),
        &vec![expected(vec![Expectation::Block, Expectation::Type], None, at(0, 1))]
    );
    assert_eq!(parser.index(), 0);
}

#[test]
fn spans_merge_to_the_earliest_start_and_the_latest_end() {
    assert_eq!(at(2, 4).merge(at(7, 9)), at(2, 9));
    assert_eq!(at(7, 9).merge(at(2, 4)), at(2, 9));
    assert_eq!(at(2, 9).merge(at(3, 4)), at(2, 9));
    let early = Loc { pos: 3, line: 1, col: 9 };
    let late = Loc { pos: 3, line: 2, col: 1 };
    assert!(early.le(late) && !late.le(early) && early.le(early));
    let spanned = at(1, 2).sp(7).map(|n| n + 1).extend(at(5, 6));
    assert_eq!(spanned, Sp { value: 8, span: at(1, 6) });
}

#[test]
fn expectations_come_from_fixed_tokens() {
    assert_eq!(Expectation::from(Simple::Comma), Expectation::Simple(Simple::Comma));
    assert_eq!(Expectation::from(Keyword::Let), Expectation::Keyword(Keyword::Let));
}

#[test]
fn diagnostics_render_as_text() {
    let (_, errors) = parse_text("let 5;");
    assert_eq!(errors[0].value.to_string(), "expected `pattern`, found `5`");
    let (_, errors) = parse_text("let x =");
    assert_eq!(errors[0].value.to_string(), "expected `expression`");
    let (_, errors) = parse_text("(1;");
    assert_eq!(errors[0].value.to_string(), "expected `)`, found `;`");
    assert_eq!(errors[1].value.to_string(), "expected `end of file`, found `;`");
    let (_, errors) = parse_text("if a else");
    assert_eq!(errors[0].value.to_string(), "expected `then`, found `else`");
    let (_, errors) = parse_text("if a b");
    assert_eq!(errors[0].value.to_string(), "expected `then`");
    let several = ParseError::Expected(
        vec![Expectation::Block, Expectation::Type, Expectation::FunctionBody, Expectation::Ident],
        None,
    );
    assert_eq!(several.to_string(), "expected `block`, `type`, `function body`, `identifier`");
    let none = ParseError::Expected(vec![], Some(Box::new(simple(Simple::Plus, 0, 1))));
    assert_eq!(none.to_string(), "expected , found `+`");
    let lexical = ParseError::Lex(LexError { message: "bad character".to_string() });
    assert_eq!(lexical.to_string(), "bad character");
}

#[test]
fn tokens_render_as_they_are_written() {
    let simples = [
        (Simple::OpenParen, "("),
        (Simple::CloseParen, ")"),
        (Simple::OpenBracket, "["),
        (Simple::CloseBracket, "]"),
        (Simple::OpenCurly, "{"),
        (Simple::CloseCurly, "}"),
        (Simple::Colon, ":"),
        (Simple::SemiColon, ";"),
        (Simple::Comma, ","),
        (Simple::Elipses, ".."),
        (Simple::Equal, "="),
        (Simple::NotEqual, "!="),
        (Simple::Less, "<"),
        (Simple::LessEqual, "<="),
        (Simple::Greater, ">"),
        (Simple::GreaterEqual, ">="),
        (Simple::Plus, "+"),
        (Simple::Minus, "-"),
        (Simple::Star, "*"),
        (Simple::Slash, "/"),
    ];
    for (simple, text) in simples {
        assert_eq!(simple.text(), text);
        assert_eq!(Token::Simple(simple).to_string(), text);
        assert_eq!(Expectation::Simple(simple).to_string(), text);
    }
    let keywords = [
        (Keyword::Fn, "fn"),
        (Keyword::Let, "let"),
        (Keyword::If, "if"),
        (Keyword::Then, "then"),
        (Keyword::Else, "else"),
        (Keyword::And, "and"),
        (Keyword::Or, "or"),
        (Keyword::True, "true"),
        (Keyword::False, "false"),
    ];
    for (keyword, text) in keywords {
        assert_eq!(keyword.text(), text);
        assert_eq!(Token::Keyword(keyword).to_string(), text);
        assert_eq!(Expectation::Keyword(keyword).to_string(), text);
    }
    assert_eq!(Token::Ident("abc".to_string()).to_string(), "abc");
    assert_eq!(Token::Int("12".to_string()).to_string(), "12");
    assert_eq!(Token::Real("1.5".to_string()).to_string(), "1.5");
    assert_eq!(Token::Comment(" why".to_string()).to_string(), "// why");
    assert_eq!(Token::DocComment(" what".to_string()).to_string(), "/// what");
    assert_eq!(Expectation::Eof.text(), "end of file");
    assert_eq!(Expectation::Expr.text(), "expression");
    assert_eq!(Expectation::Pattern.text(), "pattern");
}

#[test]
fn tokens_compare_by_variant_and_content() {
    let a = Token::Ident("a".to_string());
    assert!(a.same_as(&a.clone()));
    assert!(!a.same_as(&Token::Ident("b".to_string())));
    assert!(!a.same_as(&Token::Int("a".to_string())));
    assert!(Token::Simple(Simple::Plus).same_as(&Token::Simple(Simple::Plus)));
    assert!(!Token::Simple(Simple::Plus).same_as(&Token::Simple(Simple::Minus)));
    assert!(Token::Comment("x".to_string()).is_comment());
    assert!(!Token::DocComment("x".to_string()).is_comment());
}

fn written_pattern(pattern: &Pattern, out: &mut Vec<Token>) {
    match pattern {
        Pattern::Ident(name) => out.push(Token::Ident(name.clone())),
        Pattern::List(items) => {
            out.push(Token::Simple(Simple::OpenBracket));
            items.iter().for_each(|p| written_pattern(&p.value, out));
            out.push(Token::Simple(Simple::CloseBracket));
        }
    }
}

fn written_block(block: &Block, out: &mut Vec<Token>) {
    for binding in &block.bindings {
        written_binding(binding, out);
        out.push(Token::Simple(Simple::SemiColon));
    }
    written(&block.expr.value, out);
}

fn written_binding(binding: &Binding, out: &mut Vec<Token>) {
    out.push(Token::Keyword(Keyword::Let));
    written_pattern(&binding.pattern.value, out);
    out.push(Token::Simple(Simple::Equal));
    written(&binding.expr.value, out);
}

/// The tokens that an expression is written with, without the commas.
fn written(expr: &Expr, out: &mut Vec<Token>) {
    match expr {
        Expr::Ident(name) => out.push(Token::Ident(name.clone())),
        Expr::Int(digits) => out.push(Token::Int(digits.clone())),
        Expr::Real(digits) => out.push(Token::Real(digits.clone())),
        Expr::Bool(true) => out.push(Token::Keyword(Keyword::True)),
        Expr::Bool(false) => out.push(Token::Keyword(Keyword::False)),
        Expr::Unit => {
            out.push(Token::Simple(Simple::OpenParen));
            out.push(Token::Simple(Simple::CloseParen));
        }
        Expr::Parened(inner) => {
            out.push(Token::Simple(Simple::OpenParen));
            written(&inner.value, out);
            out.push(Token::Simple(Simple::CloseParen));
        }
        Expr::List(items) => {
            out.push(Token::Simple(Simple::OpenBracket));
            items.iter().for_each(|e| written(&e.value, out));
            out.push(Token::Simple(Simple::CloseBracket));
        }
        Expr::Call(call) => {
            written(&call.func.value, out);
            call.args.iter().for_each(|e| written(&e.value, out));
        }
        Expr::Bin(bin) => {
            written(&bin.left.value, out);
            out.extend(lex(op_text(bin.op.value)).into_iter().map(|t| t.value));
            written(&bin.right.value, out);
        }
        Expr::Logic(logic) => {
            written(&logic.left.value, out);
            out.push(Token::Keyword(match logic.op.value {
                LogicOp::And => Keyword::And,
                LogicOp::Or => Keyword::Or,
            }));
            written(&logic.right.value, out);
        }
        Expr::If(cond) => {
            out.push(Token::Keyword(Keyword::If));
            written(&cond.cond.value, out);
            out.push(Token::Keyword(Keyword::Then));
            written_block(&cond.if_true, out);
            out.push(Token::Keyword(Keyword::Else));
            written_block(&cond.if_false, out);
        }
    }
}

#[test]
fn clean_parse_keeps_every_token_but_comments_and_commas() {
    let source = "/// Sums\nfn sum a b: let [x, y,] = [a, b]; // halfway\n x + y * (a - 1) .. f x ();\n\
                  let t = if a < b and true or b >= a then let u = 1.5; [u, (), [],] else g [a] b;\n\
                  sum 1 2 != 3; // done";
    let tokens = lex(source);
    let (items, errors) = parse(Ok(lex(source)));
    assert_eq!(errors, vec![]);
    assert_eq!(items.len(), 3);
    let mut kept = Vec::new();
    for item in &items {
        match item {
            Item::FunctionDef(def) => {
                kept.push(Token::Keyword(Keyword::Fn));
                kept.push(Token::Ident(def.name.value.clone()));
                kept.extend(def.func.params.iter().map(|p| Token::Ident(p.value.clone())));
                kept.push(Token::Simple(Simple::Colon));
                written_block(&def.func.body, &mut kept);
            }
            Item::Binding(binding) => written_binding(binding, &mut kept),
            Item::Expr(expr) => written(&expr.value, &mut kept),
        }
        kept.push(Token::Simple(Simple::SemiColon));
    }
    let essential: Vec<Token> = tokens
        .into_iter()
        .map(|t| t.value)
        .filter(|t| {
            !matches!(t, Token::Comment(_) | Token::DocComment(_) | Token::Simple(Simple::Comma))
        })
        .collect();
    assert_eq!(kept, essential);
    assert_eq!(kept.len(), 70);
}
