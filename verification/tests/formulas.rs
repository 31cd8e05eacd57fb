use complextro::emit_shaders::{ast_to_shader, build_fragment, FRAGMENT_TEMPLATE_BEGIN, FRAGMENT_TEMPLATE_END};
use complextro::error::{Cause, ParseError};
use complextro::input::{parse_input, DEFAULT_MSG};
use complextro::parser::{parse, Expr, Name, Number};
use complextro::scan::Scan;

/// What nom reads as a number at every position of `text`.
fn scans(text: &str) -> Vec<Scan> {
    let mut table = Vec::new();
    for (at, _) in text.char_indices() {
        let tail = &text[at..];
        table.push(match nom::number::complete::float::<&str, nom::error::Error<&str>>(tail) {
            Ok((rest, value)) => Scan::Number {
                length: tail[..tail.len() - rest.len()].chars().count(),
                number: Number { bits: value.to_bits(), text: format!("{:.1}", value) },
            },
            Err(nom::Err::Failure(_)) => Scan::Broken,
            Err(_) => Scan::Nothing,
        });
    }
    table
}

fn read(text: &str) -> Result<Expr, ParseError> {
    parse(text, &scans(text))
}

fn compiled(text: &str) -> String {
    ast_to_shader(read(text).unwrap())
}

fn z() -> Box<Expr> {
    Box::new(Expr::VarZ)
}

fn number(value: f32) -> Number {
    Number { bits: value.to_bits(), text: format!("{:.1}", value) }
}

fn constant(value: f32) -> Box<Expr> {
    Box::new(Expr::Real(number(value)))
}

fn binary(op: char, left: Box<Expr>, right: Box<Expr>) -> Box<Expr> {
    Box::new(Expr::Binary(op, left, right))
}

fn is_one_balanced_line(text: &str) -> bool {
    let mut depth: i64 = 0;
    for c in text.chars() {
        match c {
            '(' => depth += 1,
            ')' => depth -= 1,
            '\n' | '\r' | '{' | '}' | ';' => return false,
            _ => {}
        }
        if depth < 0 {
            return false;
        }
    }
    depth == 0
}

#[test]
fn power_associates_to_the_right() {
    assert_eq!(read("z^z^z"), Ok(*binary('^', z(), binary('^', z(), z()))));
}

#[test]
fn division_associates_to_the_left() {
    assert_eq!(read("z/z/z"), Ok(*binary('/', binary('/', z(), z()), z())));
}

#[test]
fn subtraction_associates_to_the_left() {
    assert_eq!(read("z-z+z"), Ok(*binary('+', binary('-', z(), z()), z())));
}

#[test]
fn product_binds_tighter_than_sum() {
    assert_eq!(read("z + z * z"), Ok(*binary('+', z(), binary('*', z(), z()))));
    assert_ne!(read("z + z * z"), Ok(*binary('*', binary('+', z(), z()), z())));
}

#[test]
fn power_binds_tighter_than_product() {
    assert_eq!(read("z*z^z"), Ok(*binary('*', z(), binary('^', z(), z()))));
    assert_eq!(read("z^z*z"), Ok(*binary('*', binary('^', z(), z()), z())));
}

#[test]
fn parentheses_override_precedence() {
    assert_eq!(read("(z + z) * z"), Ok(*binary('*', binary('+', z(), z()), z())));
}

#[test]
fn real_literal() {
    assert_eq!(read("3"), Ok(Expr::Real(number(3.0))));
    assert_eq!(read("3"), Ok(Expr::Real(Number { bits: 0x4040_0000, text: "3.0".to_string() })));
}

#[test]
fn imaginary_literal() {
    assert_eq!(read("3i"), Ok(Expr::Imaginary(number(3.0))));
}

#[test]
fn bare_imaginary_unit() {
    assert_eq!(read("i"), Ok(Expr::Imaginary(number(1.0))));
    assert_eq!(read("i"), Ok(Expr::Imaginary(Number { bits: 0x3f80_0000, text: "1.0".to_string() })));
}

#[test]
fn literal_with_fraction_and_exponent() {
    assert_eq!(read("0.25"), Ok(Expr::Real(number(0.25))));
    assert_eq!(read("2.5e3"), Ok(Expr::Real(number(2500.0))));
    assert_eq!(read(".5i"), Ok(Expr::Imaginary(number(0.5))));
}

#[test]
fn a_word_is_no_number() {
    assert_eq!(read("nan"), Err(ParseError { position: 0, cause: Cause::Unexpected }));
    assert_eq!(read("NaN"), Err(ParseError { position: 0, cause: Cause::Unexpected }));
    // The bare unit is read, and what is left is no formula.
    assert_eq!(read("inf"), Err(ParseError { position: 1, cause: Cause::Unexpected }));
    assert_eq!(read("infi"), Err(ParseError { position: 1, cause: Cause::Unexpected }));
    assert_eq!(read("infinity"), Err(ParseError { position: 1, cause: Cause::Unexpected }));
    assert_eq!(read("z + nan"), Err(ParseError { position: 2, cause: Cause::Unexpected }));
}

#[test]
fn a_number_too_large_is_no_number() {
    assert_eq!(read("1e39"), Err(ParseError { position: 0, cause: Cause::Unexpected }));
    assert_eq!(read("z^1e39"), Err(ParseError { position: 1, cause: Cause::Unexpected }));
    assert_eq!(read("3e38"), Ok(Expr::Real(number(3e38))));
    assert_eq!(read("1e-60"), Ok(Expr::Real(number(0.0))));
}

#[test]
fn a_number_begins_with_a_digit_or_a_point() {
    assert_eq!(read("5"), Ok(Expr::Real(number(5.0))));
    assert_eq!(read("5."), Ok(Expr::Real(number(5.0))));
    assert_eq!(read(".5"), Ok(Expr::Real(number(0.5))));
    assert_eq!(read("."), Err(ParseError { position: 0, cause: Cause::Unexpected }));
    assert_eq!(read("e5"), Err(ParseError { position: 0, cause: Cause::Unexpected }));
}

#[test]
fn negation_is_a_function() {
    assert_eq!(read("-z"), Ok(Expr::Func(Name::Neg, z())));
    assert_eq!(compiled("-z"), "-(z)");
}

#[test]
fn negative_number_is_a_negated_number() {
    assert_eq!(read("-3"), Ok(Expr::Func(Name::Neg, constant(3.0))));
    assert_eq!(read(" - 3"), Ok(Expr::Func(Name::Neg, constant(3.0))));
    assert_eq!(compiled("-3"), "-(polar(vec2(3.0, 0)))");
}

#[test]
fn plus_sign_is_a_function() {
    assert_eq!(read("+z"), Ok(Expr::Func(Name::Pos, z())));
    assert_eq!(compiled("+z"), "(z)");
}

#[test]
fn sign_in_an_exponent() {
    assert_eq!(
        read("z^-2"),
        Ok(*binary('^', z(), Box::new(Expr::Func(Name::Neg, constant(2.0)))))
    );
}

#[test]
fn a_second_sign_is_rejected() {
    assert_eq!(read("--3"), Err(ParseError { position: 0, cause: Cause::Unexpected }));
    assert_eq!(read("-+3"), Err(ParseError { position: 0, cause: Cause::Unexpected }));
    assert_eq!(read("+-3"), Err(ParseError { position: 0, cause: Cause::Unexpected }));
    assert_eq!(read("--z"), Err(ParseError { position: 0, cause: Cause::Unexpected }));
    assert_eq!(read("z---3"), Err(ParseError { position: 1, cause: Cause::Unexpected }));
    assert_eq!(read("z - - -3"), Err(ParseError { position: 2, cause: Cause::Unexpected }));
    assert_eq!(read("--1e"), Err(ParseError { position: 0, cause: Cause::Unexpected }));
}

#[test]
fn no_literal_is_negative() {
    assert_eq!(read("-0.0"), Ok(Expr::Func(Name::Neg, constant(0.0))));
    assert_eq!(compiled("-0.0"), "-(polar(vec2(0.0, 0)))");
    assert_eq!(read("z*-2"), Ok(*binary('*', z(), Box::new(Expr::Func(Name::Neg, constant(2.0))))));
    assert_eq!(read("z--3"), Ok(*binary('-', z(), Box::new(Expr::Func(Name::Neg, constant(3.0))))));
}

#[test]
fn log_of_the_variable() {
    assert_eq!(read("log(z)"), Ok(Expr::Func(Name::Log, z())));
    assert_eq!(compiled("log(z)"), "log_(z)");
}

#[test]
fn log_of_a_sum() {
    assert_eq!(
        read("log(z + 1)"),
        Ok(Expr::Func(Name::Log, binary('+', z(), constant(1.0))))
    );
    assert_eq!(compiled("log(z + 1)"), "log_(add_(z,polar(vec2(1.0, 0))))");
}

#[test]
fn blanks_around_the_tokens_of_a_call() {
    assert_eq!(read(" log ( z ) + z"), Ok(*binary('+', Box::new(Expr::Func(Name::Log, z())), z())));
    assert_eq!(read("z + log(z)"), Ok(*binary('+', z(), Box::new(Expr::Func(Name::Log, z())))));
}

#[test]
fn empty_text_is_the_empty_formula() {
    assert_eq!(read(""), Ok(Expr::Empty));
    assert_eq!(compiled(""), "null()");
}

#[test]
fn blanks_only_is_the_empty_formula() {
    assert_eq!(read("   "), Ok(Expr::Empty));
    assert_eq!(read(" \t "), Ok(Expr::Empty));
    assert_eq!(compiled("   "), "null()");
}

#[test]
fn missing_operand_is_rejected() {
    assert_eq!(read("z +"), Err(ParseError { position: 2, cause: Cause::Unexpected }));
    assert_eq!(read("z ^"), Err(ParseError { position: 2, cause: Cause::Unexpected }));
    assert_eq!(read("z*"), Err(ParseError { position: 1, cause: Cause::Unexpected }));
}

#[test]
fn unmatched_parenthesis_is_rejected() {
    assert_eq!(read("log(z"), Err(ParseError { position: 0, cause: Cause::Unexpected }));
    assert_eq!(read("(z"), Err(ParseError { position: 0, cause: Cause::Unexpected }));
    assert_eq!(read("z)"), Err(ParseError { position: 1, cause: Cause::Unexpected }));
    assert_eq!(read("()"), Err(ParseError { position: 0, cause: Cause::Unexpected }));
}

#[test]
fn unknown_name_is_rejected() {
    assert_eq!(read("w"), Err(ParseError { position: 0, cause: Cause::Unexpected }));
    assert_eq!(read("  w"), Err(ParseError { position: 2, cause: Cause::Unexpected }));
    assert_eq!(read("sin(z)"), Err(ParseError { position: 0, cause: Cause::Unexpected }));
    assert_eq!(read("lo"), Err(ParseError { position: 0, cause: Cause::Unexpected }));
    assert_eq!(read("log z"), Err(ParseError { position: 0, cause: Cause::Unexpected }));
}

#[test]
fn trailing_token_is_rejected() {
    assert_eq!(read("z 3"), Err(ParseError { position: 2, cause: Cause::Unexpected }));
    assert_eq!(read("zz"), Err(ParseError { position: 1, cause: Cause::Unexpected }));
    assert_eq!(read("3 i"), Err(ParseError { position: 2, cause: Cause::Unexpected }));
}

#[test]
fn text_beyond_ascii_is_rejected_at_its_character() {
    assert_eq!(read("z + é"), Err(ParseError { position: 2, cause: Cause::Unexpected }));
    assert_eq!(read("é"), Err(ParseError { position: 0, cause: Cause::Unexpected }));
    assert_eq!(read("éé z"), Err(ParseError { position: 0, cause: Cause::Unexpected }));
}

#[test]
fn line_break_is_no_blank() {
    assert_eq!(read("z\n"), Err(ParseError { position: 1, cause: Cause::Unexpected }));
}

#[test]
fn broken_exponent_is_rejected_where_the_number_begins() {
    assert_eq!(read("1e"), Err(ParseError { position: 0, cause: Cause::BrokenNumber }));
    assert_eq!(read("z^2e"), Err(ParseError { position: 2, cause: Cause::BrokenNumber }));
    assert_eq!(read("(z + 3e+)"), Err(ParseError { position: 5, cause: Cause::BrokenNumber }));
}

#[test]
fn blanks_do_not_change_the_tree() {
    let tight = read("z^2+3");
    assert_eq!(tight, Ok(*binary('+', binary('^', z(), constant(2.0)), constant(3.0))));
    assert_eq!(read(" z ^ 2 + 3 "), tight);
    assert_eq!(read("\tz\t^  2+\t3"), tight);
}

#[test]
fn a_blank_between_tokens_moves_what_is_behind_it() {
    let texts = ["z^2+3", "(z^2 + z)/(z^-2 - z)", "z*log(z)*3i", "z 3", "z^(2e)", "-z)"];
    for text in texts {
        let before = read(text);
        // Position 1 lies between two tokens in each of the texts.
        let wide = format!("{} {}", &text[..1], &text[1..]);
        let after = read(&wide);
        match before {
            Ok(tree) => assert_eq!(after, Ok(tree), "{}", wide),
            Err(error) => {
                let position = if error.position < 1 { error.position } else { error.position + 1 };
                assert_eq!(after, Err(ParseError { position, cause: error.cause }), "{}", wide);
            }
        }
    }
    assert_eq!(read("12"), Ok(Expr::Real(number(12.0))));
    assert_eq!(read("1 2"), Err(ParseError { position: 2, cause: Cause::Unexpected }));
    assert_eq!(read("l og(z)"), Err(ParseError { position: 0, cause: Cause::Unexpected }));
}

#[test]
fn the_same_text_fails_the_same_way() {
    for text in ["z +", "log(z", "w", "z 3", "1e", "z^(2e)"] {
        let first = read(text);
        let second = read(text);
        assert!(first.is_err());
        assert_eq!(first, second);
        let error = first.unwrap_err();
        assert_eq!(error.message(text), second.unwrap_err().message(text));
    }
}

#[test]
fn every_node_becomes_a_call() {
    assert_eq!(compiled("z+z"), "add_(z,z)");
    assert_eq!(compiled("z-z"), "sub_(z,z)");
    assert_eq!(compiled("z*z"), "mul_(z,z)");
    assert_eq!(compiled("z/z"), "div_(z,z)");
    assert_eq!(compiled("z^z"), "pow_(z,z)");
    assert_eq!(compiled("log(z)"), "log_(z)");
    assert_eq!(compiled("3"), "polar(vec2(3.0, 0))");
    assert_eq!(compiled("3i"), "polar(vec2(0, 3.0))");
    assert_eq!(compiled("i"), "polar(vec2(0, 1.0))");
    assert_eq!(compiled("z"), "z");
}

#[test]
fn operands_keep_their_order() {
    assert_eq!(compiled("2-z"), "sub_(polar(vec2(2.0, 0)),z)");
    assert_eq!(compiled("z/2"), "div_(z,polar(vec2(2.0, 0)))");
    assert_eq!(compiled("2^z"), "pow_(polar(vec2(2.0, 0)),z)");
}

#[test]
fn numbers_are_written_with_one_digit() {
    assert_eq!(compiled("3.14"), "polar(vec2(3.1, 0))");
    assert_eq!(compiled("0.1"), "polar(vec2(0.1, 0))");
    assert_eq!(compiled("70000"), "polar(vec2(70000.0, 0))");
    assert_eq!(compiled("1e3i"), "polar(vec2(0, 1000.0))");
}

#[test]
fn the_examples_compile() {
    let expected = [
        ("z", "z"),
        ("z^2 + 3", "add_(pow_(z,polar(vec2(2.0, 0))),polar(vec2(3.0, 0)))"),
        ("log(z)", "log_(z)"),
        ("z^70000", "pow_(z,polar(vec2(70000.0, 0)))"),
        ("z^1000", "pow_(z,polar(vec2(1000.0, 0)))"),
        ("z^100", "pow_(z,polar(vec2(100.0, 0)))"),
        ("z^z*1000", "mul_(pow_(z,z),polar(vec2(1000.0, 0)))"),
        (
            "z^(0.1-log(z))",
            "pow_(z,sub_(polar(vec2(0.1, 0)),log_(z)))",
        ),
        (
            "z/(1+z^10)",
            "div_(z,add_(polar(vec2(1.0, 0)),pow_(z,polar(vec2(10.0, 0)))))",
        ),
        (
            "(z^2 + z)/(z^-2 - z)",
            "div_(add_(pow_(z,polar(vec2(2.0, 0))),z),sub_(pow_(z,-(polar(vec2(2.0, 0)))),z))",
        ),
        ("z^z^z^z", "pow_(z,pow_(z,pow_(z,z)))"),
        (
            "z^log(z)^(1/z)",
            "pow_(z,pow_(log_(z),div_(polar(vec2(1.0, 0)),z)))",
        ),
        ("z^z^14", "pow_(z,pow_(z,polar(vec2(14.0, 0))))"),
    ];
    for (text, shader) in expected {
        assert_eq!(compiled(text), shader, "{}", text);
    }
}

#[test]
fn compiled_text_is_one_balanced_line() {
    for text in [
        "",
        "z",
        "-(z)",
        "z^2 + 3",
        "(z^2 + z)/(z^-2 - z)",
        "log(log(log(z)))",
        "((((z))))",
        "-0.0",
        "1e30",
        "3.4e38i",
    ] {
        let shader = compiled(text);
        assert!(is_one_balanced_line(&shader), "{}", shader);
        assert!(!shader.is_empty());
    }
}

#[test]
fn a_real_and_an_imaginary_number_differ() {
    assert_eq!(compiled("0"), "polar(vec2(0.0, 0))");
    assert_eq!(compiled("0i"), "polar(vec2(0, 0.0))");
    assert_ne!(compiled("0"), compiled("0i"));
    assert_ne!(compiled("3"), compiled("3i"));
}

#[test]
fn large_numbers_are_written_without_exponent() {
    assert_eq!(compiled("1e10"), "polar(vec2(10000000000.0, 0))");
    assert_eq!(
        compiled("3e38"),
        "polar(vec2(300000000549775575777803994281145270272.0, 0))"
    );
    assert_eq!(compiled("3e38"), format!("polar(vec2({:.1}, 0))", 3e38f32));
}

#[test]
fn the_tree_is_no_higher_than_the_text_is_long() {
    fn height(expr: &Expr) -> usize {
        match expr {
            Expr::Binary(_, left, right) => 1 + height(left).max(height(right)),
            Expr::Func(_, operand) => 1 + height(operand),
            Expr::Empty => 0,
            _ => 1,
        }
    }
    for text in ["z", "-z", "-1", "z^z^z^z", "((z))", "log(-z)", "z+z+z+z", ""] {
        let tree = read(text).unwrap();
        assert!(height(&tree) <= text.chars().count(), "{}", text);
    }
    assert_eq!(height(&read("z^z^z^z").unwrap()), 4);
    assert_eq!(height(&read("-z").unwrap()), 2);
}

#[test]
fn a_parsed_tree_is_well_formed() {
    for text in ["", "z", "z^2 + 3", "log(z) - 3i", "1e30"] {
        assert!(read(text).unwrap().is_well_formed(), "{}", text);
    }
}

#[test]
fn trees_that_are_not_well_formed() {
    assert!(!Expr::Binary('%', z(), z()).is_well_formed());
    assert!(!Expr::Func(Name::Log, Box::new(Expr::Empty)).is_well_formed());
    assert!(!Expr::Binary('+', z(), Box::new(Expr::Empty)).is_well_formed());
    assert!(!Expr::Empty.is_proper());
    assert!(Expr::Empty.is_well_formed());
    assert!(Expr::Binary('^', z(), constant(2.5)).is_well_formed());
}

#[test]
fn numbers_that_are_not_valid() {
    let with_text = |text: &str| Number { bits: 0, text: text.to_string() };
    for text in ["", "0", "0.", ".0", "0.00", "0.0)", "0.0\n", "-0.0", "1e3", "NaN", "inf", "0,0", "0.0 "] {
        assert!(!with_text(text).is_valid(), "{:?}", text);
        assert!(!Expr::Real(with_text(text)).is_well_formed(), "{:?}", text);
        assert!(!Expr::Imaginary(with_text(text)).is_well_formed(), "{:?}", text);
    }
    for text in ["0.0", "12.5", "340282350000000000000000000000000000000.0"] {
        assert!(with_text(text).is_valid(), "{:?}", text);
    }
    let with_bits = |bits: u32| Number { bits, text: "0.0".to_string() };
    assert!(with_bits(0).is_valid());
    assert!(with_bits(f32::MAX.to_bits()).is_valid());
    assert!(with_bits(0x7f7f_ffff).is_valid());
    assert!(!with_bits(0x7f80_0000).is_valid());
    assert!(!with_bits(f32::INFINITY.to_bits()).is_valid());
    assert!(!with_bits(f32::NAN.to_bits()).is_valid());
    assert!(!with_bits(f32::NEG_INFINITY.to_bits()).is_valid());
    assert!(!with_bits((-0.0f32).to_bits()).is_valid());
    assert!(!with_bits((-2.5f32).to_bits()).is_valid());
    assert!(!with_bits(u32::MAX).is_valid());
}

#[test]
fn a_copy_is_the_same_tree() {
    let tree = read("(z^2 + z)/(z^-2 - 3i)").unwrap();
    assert_eq!(tree.clone(), tree);
}

#[test]
fn without_scans_no_number_is_read() {
    let none: Vec<Scan> = Vec::new();
    assert_eq!(parse("z^z", &none), Ok(*binary('^', z(), z())));
    assert_eq!(parse("i", &none), Ok(Expr::Imaginary(number(1.0))));
    assert_eq!(parse("3", &none), Err(ParseError { position: 0, cause: Cause::Unexpected }));
    assert_eq!(parse("z+3", &none), Err(ParseError { position: 1, cause: Cause::Unexpected }));
}

#[test]
fn a_scan_that_cannot_be_is_no_number() {
    let too_long = vec![Scan::Number { length: 2, number: number(3.0) }];
    assert_eq!(parse("3", &too_long), Err(ParseError { position: 0, cause: Cause::Unexpected }));
    let empty = vec![Scan::Number { length: 0, number: number(3.0) }];
    assert_eq!(parse("3", &empty), Err(ParseError { position: 0, cause: Cause::Unexpected }));
    for text in ["3)", "3", "NaN", "3.00", "-3.0"] {
        let odd = vec![Scan::Number {
            length: 1,
            number: Number { bits: 0x4040_0000, text: text.to_string() },
        }];
        assert_eq!(parse("3", &odd), Err(ParseError { position: 0, cause: Cause::Unexpected }));
    }
    for value in [f32::NAN, f32::INFINITY, -3.0] {
        let odd = vec![Scan::Number {
            length: 1,
            number: Number { bits: value.to_bits(), text: "3.0".to_string() },
        }];
        assert_eq!(parse("3", &odd), Err(ParseError { position: 0, cause: Cause::Unexpected }));
    }
    let fine = vec![Scan::Number { length: 1, number: number(3.0) }];
    assert_eq!(parse("3", &fine), Ok(Expr::Real(number(3.0))));
}

#[test]
fn a_scan_counts_only_where_a_number_can_begin() {
    let table = vec![Scan::Number { length: 1, number: number(7.0) }];
    assert_eq!(parse("z", &table), Ok(Expr::VarZ));
    assert_eq!(parse("i", &table), Ok(Expr::Imaginary(number(1.0))));
    assert_eq!(parse("w", &table), Err(ParseError { position: 0, cause: Cause::Unexpected }));
    assert_eq!(parse("-", &table), Err(ParseError { position: 0, cause: Cause::Unexpected }));
    assert_eq!(parse("7", &table), Ok(Expr::Real(number(7.0))));
    let broken = vec![Scan::Broken];
    assert_eq!(parse("z", &broken), Ok(Expr::VarZ));
    assert_eq!(parse("7", &broken), Err(ParseError { position: 0, cause: Cause::BrokenNumber }));
    assert_eq!(parse("", &broken), Ok(Expr::Empty));
}

#[test]
fn messages_show_what_is_left() {
    let error = read("z + w").unwrap_err();
    assert_eq!(error, ParseError { position: 2, cause: Cause::Unexpected });
    assert_eq!(error.message("z + w"), "no formula goes on with: + w");
    let error = read("z^2e").unwrap_err();
    assert_eq!(error.message("z^2e"), "a number breaks off in: 2e");
    let far = ParseError { position: 9, cause: Cause::Unexpected };
    assert_eq!(far.message("z"), "no formula goes on with: ");
    let late = ParseError { position: 1, cause: Cause::BrokenNumber };
    assert_eq!(late.message("éa"), "a number breaks off in: a");
}

#[test]
fn input_that_is_a_formula() {
    let text = "z^2 + 3".to_string();
    let mut shader = String::from("old");
    let mut message = None;
    parse_input(&text, &scans(&text), &mut shader, &mut message);
    assert_eq!(shader, "add_(pow_(z,polar(vec2(2.0, 0))),polar(vec2(3.0, 0)))");
    assert_eq!(message, Some(DEFAULT_MSG.to_string()));
    assert_eq!(DEFAULT_MSG, "Type an expression of the complex variable z, then hit Enter");
}

#[test]
fn input_that_is_empty() {
    let text = String::new();
    let mut shader = String::from("old");
    let mut message = None;
    parse_input(&text, &scans(&text), &mut shader, &mut message);
    assert_eq!(shader, "null()");
    assert_eq!(message, Some(DEFAULT_MSG.to_string()));
}

#[test]
fn input_that_is_no_formula() {
    let text = "z +".to_string();
    let mut shader = String::from("z");
    let mut message = Some(DEFAULT_MSG.to_string());
    parse_input(&text, &scans(&text), &mut shader, &mut message);
    assert_eq!(shader, "null()");
    assert_eq!(message, Some("no formula goes on with: +".to_string()));
}

#[test]
fn fragment_holds_the_expression() {
    let fragment = build_fragment("add_(z,z)");
    assert_eq!(
        fragment,
        format!("{}{}{}", FRAGMENT_TEMPLATE_BEGIN, "add_(z,z)", FRAGMENT_TEMPLATE_END)
    );
    assert!(fragment.contains("gl_FragColor = vec4( color( compact( add_(z,z)\n ) ), 1 );"));
    assert!(fragment.starts_with("\n#version 100\n"));
    assert!(fragment.ends_with(" ) ), 1 );\n}\n"));
}

#[test]
fn the_template_defines_what_is_called() {
    for name in ["add_", "sub_", "mul_", "div_", "pow_", "log_", "polar", "null"] {
        let header = format!("vec2 {}(", name);
        assert!(FRAGMENT_TEMPLATE_BEGIN.contains(&header), "{}", name);
    }
    assert!(FRAGMENT_TEMPLATE_BEGIN.contains("vec2 z = polar(xy*4.);"));
}
