//! Writing a formula out as an expression of the shading language.

use vstd::prelude::*;
use vstd::string::StringExecFns;
use crate::bounds::lemma_formula_within;
use crate::expr::{decimal, Expr, Name, NumberModel, Tree};
use crate::grammar::formula;
use crate::line::{
    call, flat, lemma_call_balanced, lemma_flat_balanced, lemma_joined_balanced,
    one_balanced_line, one_line,
};
use crate::scan::ScanModel;

verus! {

/// The name of the operation on complex numbers that the operator `op`
/// stands for.
pub open spec fn operator_name(op: char) -> Seq<char> {
    if op == '+' {
        "add_"@
    } else if op == '-' {
        "sub_"@
    } else if op == '*' {
        "mul_"@
    } else if op == '/' {
        "div_"@
    } else {
        "pow_"@
    }
}

/// The expression of the shading language that `tree` is written out as: a
/// call for every node, with the operands in the order of the formula.
pub open spec fn emit(tree: Tree) -> Seq<char>
    decreases tree,
{
    match tree {
        Tree::Binary(op, left, right) => call(
            operator_name(op),
            emit(*left) + ","@ + emit(*right),
        ),
        Tree::Func(Name::Log, operand) => call("log_"@, emit(*operand)),
        Tree::Func(Name::Neg, operand) => call("-"@, emit(*operand)),
        Tree::Func(Name::Pos, operand) => call(Seq::empty(), emit(*operand)),
        Tree::Real(number) => call("polar"@, call("vec2"@, number.text + ", 0"@)),
        Tree::Imaginary(number) => call("polar"@, call("vec2"@, "0, "@ + number.text)),
        Tree::VarZ => "z"@,
        Tree::Empty => call("null"@, Seq::empty()),
    }
}

/// The names and separators of the emitted text hold no parenthesis, no
/// line break, no brace and no semicolon.
pub proof fn lemma_names_flat()
    ensures
        forall|op: char| flat(#[trigger] operator_name(op)) && one_line(operator_name(op)),
        flat("log_"@) && one_line("log_"@),
        flat("-"@) && one_line("-"@),
        flat("polar"@) && one_line("polar"@),
        flat("vec2"@) && one_line("vec2"@),
        flat("null"@) && one_line("null"@),
        flat("z"@) && one_line("z"@),
        flat(","@) && one_line(","@),
        flat(", 0"@) && one_line(", 0"@),
        flat("0, "@) && one_line("0, "@),
        flat(Seq::<char>::empty()) && one_line(Seq::<char>::empty()),
{
    reveal_strlit("add_");
    reveal_strlit("sub_");
    reveal_strlit("mul_");
    reveal_strlit("div_");
    reveal_strlit("pow_");
    reveal_strlit("log_");
    reveal_strlit("-");
    reveal_strlit("polar");
    reveal_strlit("vec2");
    reveal_strlit("null");
    reveal_strlit("z");
    reveal_strlit(",");
    reveal_strlit(", 0");
    reveal_strlit("0, ");
}

/// A decimal holds no parenthesis, no line break, no brace and no
/// semicolon.
pub proof fn lemma_decimal_flat(text: Seq<char>)
    requires
        decimal(text),
    ensures
        flat(text),
        one_line(text),
{
}

/// The call of a flat name on one balanced line is one balanced line.
pub proof fn lemma_call_line(name: Seq<char>, inside: Seq<char>)
    requires
        flat(name),
        one_line(name),
        one_balanced_line(inside),
    ensures
        one_balanced_line(call(name, inside)),
{
    lemma_call_balanced(name, inside);
}

/// Every well-formed tree is written out as one line of balanced
/// parentheses that holds no brace and no semicolon.
pub proof fn lemma_emitted_line(tree: Tree)
    requires
        tree.well_formed(),
    ensures
        one_balanced_line(emit(tree)),
    decreases tree,
{
    lemma_names_flat();
    match tree {
        Tree::Binary(op, left, right) => {
            lemma_emitted_line(*left);
            lemma_emitted_line(*right);
            lemma_joined_balanced(emit(*left), ","@, emit(*right));
            lemma_call_line(operator_name(op), emit(*left) + ","@ + emit(*right));
        },
        Tree::Func(name, operand) => {
            lemma_emitted_line(*operand);
            lemma_call_line("log_"@, emit(*operand));
            lemma_call_line("-"@, emit(*operand));
            lemma_call_line(Seq::empty(), emit(*operand));
        },
        Tree::Real(number) => {
            lemma_decimal_flat(number.text);
            let inside = number.text + ", 0"@;
            lemma_flat_balanced(inside);
            lemma_call_line("vec2"@, inside);
            lemma_call_line("polar"@, call("vec2"@, inside));
        },
        Tree::Imaginary(number) => {
            lemma_decimal_flat(number.text);
            let inside = "0, "@ + number.text;
            lemma_flat_balanced(inside);
            lemma_call_line("vec2"@, inside);
            lemma_call_line("polar"@, call("vec2"@, inside));
        },
        Tree::VarZ => {
            lemma_flat_balanced("z"@);
        },
        Tree::Empty => {
            lemma_flat_balanced(Seq::<char>::empty());
            lemma_call_line("null"@, Seq::empty());
        },
    }
}

/// Every text that is a formula is written out as one line of balanced
/// parentheses that holds no brace and no semicolon.
pub proof fn lemma_formula_emitted_line(s: Seq<char>, scans: Seq<ScanModel>)
    requires
        s.len() <= usize::MAX,
    ensures
        formula(s, scans) matches Ok(tree) ==> one_balanced_line(emit(tree)),
{
    lemma_formula_within(s, scans);
    if let Ok(tree) = formula(s, scans) {
        lemma_emitted_line(tree);
    }
}

/// A real number and an imaginary one are written out differently, whatever
/// the two numbers are: also where both are zero.
pub proof fn lemma_real_and_imaginary_differ(first: NumberModel, second: NumberModel)
    requires
        first.valid(),
        second.valid(),
    ensures
        emit(Tree::Real(first)) != emit(Tree::Imaginary(second)),
{
    reveal_strlit("polar");
    reveal_strlit("vec2");
    reveal_strlit(", 0");
    reveal_strlit("0, ");
    let one = emit(Tree::Real(first));
    let other = emit(Tree::Imaginary(second));
    assert(one[12] == first.text[1]);
    assert(other[12] == ',');
}

/// Appends the call of `name` on `inside` to `text`.
fn push_call(text: &mut String, name: &str, inside: &str)
    ensures
        final(text)@ == old(text)@ + call(name@, inside@),
{
    proof {
        reveal_strlit("(");
        reveal_strlit(")");
    }
    text.append(name);
    text.append("(");
    text.append(inside);
    text.append(")");
    assert(text@ =~= old(text)@ + call(name@, inside@));
}

/// The call of `name` on `inside`.
fn call_of(name: &str, inside: &str) -> (text: String)
    ensures
        text@ == call(name@, inside@),
{
    let mut text = String::new();
    push_call(&mut text, name, inside);
    assert(text@ =~= call(name@, inside@));
    text
}

/// Writes `ast` out as an expression of the shading language.
///
/// Every node becomes a call of the operation that it stands for, with the
/// operands in the order of the formula; the result is one line of balanced
/// parentheses.
pub fn ast_to_shader(ast: Expr) -> (text: String)
    requires
        ast@.well_formed(),
    ensures
        text@ == emit(ast@),
        one_balanced_line(text@),
    decreases ast,
{
    proof {
        lemma_emitted_line(ast@);
    }
    match ast {
        Expr::Binary(op, left, right) => {
            let name = if op == '+' {
                "add_"
            } else if op == '-' {
                "sub_"
            } else if op == '*' {
                "mul_"
            } else if op == '/' {
                "div_"
            } else {
                "pow_"
            };
            let mut inside = ast_to_shader(*left);
            let second = ast_to_shader(*right);
            inside.append(",");
            inside.append(second.as_str());
            call_of(name, inside.as_str())
        },
        Expr::Func(name, operand) => {
            let inside = ast_to_shader(*operand);
            match name {
                Name::Log => call_of("log_", inside.as_str()),
                Name::Neg => call_of("-", inside.as_str()),
                Name::Pos => {
                    proof {
                        reveal_strlit("");
                        assert(""@ =~= Seq::<char>::empty());
                    }
                    call_of("", inside.as_str())
                },
            }
        },
        Expr::Real(number) => {
            let mut inside = number.text;
            inside.append(", 0");
            let vector = call_of("vec2", inside.as_str());
            call_of("polar", vector.as_str())
        },
        Expr::Imaginary(number) => {
            let mut inside = String::from_str("0, ");
            inside.append(number.text.as_str());
            let vector = call_of("vec2", inside.as_str());
            call_of("polar", vector.as_str())
        },
        Expr::VarZ => String::from_str("z"),
        Expr::Empty => {
            proof {
                reveal_strlit("");
                assert(""@ =~= Seq::<char>::empty());
            }
            call_of("null", "")
        },
    }
}

/// The fragment shader that draws `s`: the expression between the two parts
/// of the template.
pub fn build_fragment(s: &str) -> (shader: String)
    ensures
        shader@ == FRAGMENT_TEMPLATE_BEGIN@ + s@ + FRAGMENT_TEMPLATE_END@,
{
    let mut shader = String::from_str(FRAGMENT_TEMPLATE_BEGIN);
    shader.append(s);
    shader.append(FRAGMENT_TEMPLATE_END);
    shader
}

/// The fragment shader up to the place of the expression: the operations on
/// complex numbers that an emitted expression calls, and the colouring.
pub const FRAGMENT_TEMPLATE_BEGIN: &'static str = r#"
#version 100

precision highp float;

varying highp vec2 xy;

//  Function from Iñigo Quiles
//  https://www.shadertoy.com/view/MsS3Wc
vec3 hsb2rgb( in vec3 c ){
    vec3 rgb = clamp(abs(mod(c.x*6.0+vec3(0.0,4.0,2.0),
                             6.0)-3.0)-1.0,
                     0.0,
                     1.0 );
    rgb = rgb*rgb*(3.0-2.0*rgb);
    return c.z * mix( vec3(1.0), rgb, c.y);
}

vec2 cartesian(vec2 z) {
    return z.x * vec2(cos(z.y), sin(z.y));
}

vec2 polar(vec2 z) {
    return vec2(length(z), atan(z.y,z.x));
}

vec2 add_(vec2 z1, vec2 z2) {
    return polar(cartesian(z1) + cartesian(z2));
}

vec2 sub_(vec2 z1, vec2 z2) {
    return polar(cartesian(z1) - cartesian(z2));
}

vec2 mul_(vec2 z1, vec2 z2) {
    return vec2(z1.x*z2.x, z1.y+z2.y);
}

vec2 div_(vec2 z1, vec2 z2) {
    return vec2(z1.x/z2.x, z1.y-z2.y);
}

vec2 log_(vec2 z) {
    return polar(vec2(log(z.x), z.y));
}

vec2 pow_(float n, vec2 z) {
    return vec2(exp(log(n)*z.x*cos(z.y)), log(n)*z.x*sin(z.y));
}

vec2 pow_(vec2 z1, vec2 z2) {
    return pow_(exp(1.), mul_(log_(z1),z2));
}

vec2 pow_(vec2 z, float n) {
    return vec2(exp(log(z.x)*n), z.y*n);
}

vec2 null() {
    return vec2(0.,0.);
}

vec2 id(vec2 z) {
    return z;
}

vec2 compact(vec2 z) {
    float rho = z.s;
    float theta = z.t;
    return vec2(log(abs(rho))/(1. + abs(log(abs(rho)))) + 0.5, theta);

}

#define TWO_PI 6.28318530718

vec3 color(vec2 z) {
    float h = z.t/TWO_PI + 0.5;
    float s = 1.;
    float b = z.s*0.7;
    return hsb2rgb(vec3(h, s, b));
}

void main(void) {
    vec2 z = polar(xy*4.); 

    gl_FragColor = vec4( color( compact( "#;

/// The fragment shader behind the place of the expression.
pub const FRAGMENT_TEMPLATE_END: &'static str = r#"
 ) ), 1 );
}
"#;

/// The vertex shader that goes with every fragment shader.
pub const VERTEX: &'static str = r#"

#version 100

uniform highp mat4 transform;

attribute highp vec2 pos;
varying highp vec2 xy;

void main() {
    gl_Position = transform*vec4(pos, 0, 1);
    xy = pos;
}

"#;

} // verus!
