//! Lexer and parser behavior on concrete path-data strings.

use svg_tess::path_data::{parse_svg_path_d, PathCommand};
use svg_tess::tokenizer::{tokenize_svg_path, Token};

fn num(s: &str) -> Token {
    Token::Number(s.to_string())
}

fn cmd(c: char) -> Token {
    Token::Command(c)
}

fn parse(d: &str) -> Vec<PathCommand> {
    parse_svg_path_d(&tokenize_svg_path(d))
}

#[test]
fn tokenize_simple_path() {
    let toks = tokenize_svg_path("M0,0 L10,0 L10,10 Z");
    assert_eq!(
        toks,
        vec![
            cmd('M'),
            num("0"),
            num("0"),
            cmd('L'),
            num("10"),
            num("0"),
            cmd('L'),
            num("10"),
            num("10"),
            cmd('Z'),
        ]
    );
}

#[test]
fn tokenize_second_dot_starts_new_number() {
    assert_eq!(tokenize_svg_path("1.5.5"), vec![num("1.5"), num(".5")]);
}

#[test]
fn tokenize_minus_starts_new_number() {
    assert_eq!(tokenize_svg_path("-5-3"), vec![num("-5"), num("-3")]);
}

#[test]
fn tokenize_exponent_consumes_sign() {
    assert_eq!(tokenize_svg_path("1e-5"), vec![num("1e-5")]);
    assert_eq!(tokenize_svg_path("2E+3"), vec![num("2E+3")]);
}

#[test]
fn tokenize_lone_e_is_a_letter() {
    assert_eq!(tokenize_svg_path("e5"), vec![cmd('e'), num("5")]);
}

#[test]
fn tokenize_ignores_unknown_characters() {
    // An ignored character neither closes nor extends separators.
    assert_eq!(tokenize_svg_path("1$5"), vec![num("15")]);
}

#[test]
fn tokenize_separators_close_tokens() {
    assert_eq!(
        tokenize_svg_path("1 ,2\t\n3"),
        vec![num("1"), num("2"), num("3")]
    );
}

#[test]
fn parse_absolute_and_relative() {
    assert_eq!(
        parse("M1,2 l3,4"),
        vec![
            PathCommand::MoveTo {
                x: 1f32.to_bits(),
                y: 2f32.to_bits(),
                relative: false
            },
            PathCommand::LineTo {
                x: 3f32.to_bits(),
                y: 4f32.to_bits(),
                relative: true
            },
        ]
    );
}

#[test]
fn parse_implicit_repeat_after_move_is_line() {
    assert_eq!(
        parse("M0,0 10,20"),
        vec![
            PathCommand::MoveTo {
                x: 0,
                y: 0,
                relative: false
            },
            PathCommand::LineTo {
                x: 10f32.to_bits(),
                y: 20f32.to_bits(),
                relative: false
            },
        ]
    );
}

#[test]
fn parse_operand_underflow_defaults_to_zero() {
    // The missing y-operand reads as 0.0; the command still completes.
    assert_eq!(
        parse("M0,0 L10"),
        vec![
            PathCommand::MoveTo {
                x: 0,
                y: 0,
                relative: false
            },
            PathCommand::LineTo {
                x: 10f32.to_bits(),
                y: 0f32.to_bits(),
                relative: false
            },
        ]
    );
}

#[test]
fn parse_arc_flags() {
    assert_eq!(
        parse("M0,0 A 5 6 45 1 0 10 10"),
        vec![
            PathCommand::MoveTo {
                x: 0,
                y: 0,
                relative: false
            },
            PathCommand::ArcTo {
                rx: 5f32.to_bits(),
                ry: 6f32.to_bits(),
                rotation: 45f32.to_bits(),
                large_arc: true,
                sweep: false,
                x: 10f32.to_bits(),
                y: 10f32.to_bits(),
                relative: false
            },
        ]
    );
}

#[test]
fn parse_unknown_letter_is_skipped() {
    assert_eq!(
        parse("M0,0 X L5,5"),
        vec![
            PathCommand::MoveTo {
                x: 0,
                y: 0,
                relative: false
            },
            PathCommand::LineTo {
                x: 5f32.to_bits(),
                y: 5f32.to_bits(),
                relative: false
            },
        ]
    );
}

#[test]
fn parse_number_after_close_is_skipped() {
    assert_eq!(
        parse("M0,0 Z 5"),
        vec![
            PathCommand::MoveTo {
                x: 0,
                y: 0,
                relative: false
            },
            PathCommand::Close,
        ]
    );
}

#[test]
fn parse_bare_numbers_read_as_move() {
    assert_eq!(
        parse("7 8"),
        vec![PathCommand::MoveTo {
            x: 7f32.to_bits(),
            y: 8f32.to_bits(),
            relative: false
        }]
    );
}

#[test]
fn parse_smooth_and_quadratic_commands() {
    assert_eq!(
        parse("M0,0 Q1,2 3,4 T5,6 C0,1 2,3 4,5 S6,7 8,9 H10 V11"),
        vec![
            PathCommand::MoveTo {
                x: 0,
                y: 0,
                relative: false
            },
            PathCommand::QuadTo {
                x1: 1f32.to_bits(),
                y1: 2f32.to_bits(),
                x: 3f32.to_bits(),
                y: 4f32.to_bits(),
                relative: false
            },
            PathCommand::SmoothQuadTo {
                x: 5f32.to_bits(),
                y: 6f32.to_bits(),
                relative: false
            },
            PathCommand::CubicTo {
                x1: 0f32.to_bits(),
                y1: 1f32.to_bits(),
                x2: 2f32.to_bits(),
                y2: 3f32.to_bits(),
                x: 4f32.to_bits(),
                y: 5f32.to_bits(),
                relative: false
            },
            PathCommand::SmoothCubicTo {
                x2: 6f32.to_bits(),
                y2: 7f32.to_bits(),
                x: 8f32.to_bits(),
                y: 9f32.to_bits(),
                relative: false
            },
            PathCommand::HLineTo {
                x: 10f32.to_bits(),
                relative: false
            },
            PathCommand::VLineTo {
                y: 11f32.to_bits(),
                relative: false
            },
        ]
    );
}

#[test]
fn parse_malformed_number_reads_as_zero() {
    // "1e" fails to parse as a float and reads as 0.0.
    assert_eq!(
        parse("L 1e 2"),
        vec![PathCommand::LineTo {
            x: 0f32.to_bits(),
            y: 2f32.to_bits(),
            relative: false
        }]
    );
}
