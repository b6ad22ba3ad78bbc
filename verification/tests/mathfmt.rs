use shiki_tui::mathfmt::latex_to_unicode;

#[test]
fn squares_become_superscript_digits() {
    assert_eq!(latex_to_unicode("E = mc^2"), "E = mc²");
    assert_eq!(latex_to_unicode("a^2 + b^2 = c^2"), "a² + b² = c²");
}

#[test]
fn subscripts_become_unicode_digits() {
    assert_eq!(latex_to_unicode("x_1 + x_2"), "x₁ + x₂");
}

#[test]
fn frac_and_sqrt_render_inline() {
    assert_eq!(latex_to_unicode("\\frac{\\sqrt{\\pi}}{2}"), "√π/2");
    assert_eq!(latex_to_unicode("\\frac{1}{2}"), "1/2");
    assert_eq!(latex_to_unicode("\\sqrt{x}"), "√x");
}

#[test]
fn greek_and_operators_become_glyphs() {
    assert_eq!(latex_to_unicode("\\pi"), "π");
    assert_eq!(latex_to_unicode("\\infty"), "∞");
    assert_eq!(latex_to_unicode("\\alpha \\times \\beta"), "α × β");
    assert_eq!(latex_to_unicode("\\int_0^\\infty"), "∫₀^∞");
}

#[test]
fn nested_exponent_renders_script_pass_through() {
    assert_eq!(latex_to_unicode("e^{-x^2}"), "e⁻ˣ²");
}

#[test]
fn the_demo_formula_reads_as_unicode() {
    let body = "\\int_0^\\infty e^{-x^2} dx = \\frac{\\sqrt{\\pi}}{2}";
    assert_eq!(latex_to_unicode(body), "∫₀^∞ e⁻ˣ² dx = √π/2");
}

#[test]
fn unknown_macros_are_dropped_but_their_args_render() {
    assert_eq!(latex_to_unicode("\\bogus{x} + y"), "x + y");
    assert_eq!(latex_to_unicode("just some text"), "just some text");
}

#[test]
fn grouping_braces_are_hidden() {
    assert_eq!(latex_to_unicode("{x}"), "x");
    assert_eq!(latex_to_unicode("a^{bc}"), "aᵇᶜ");
}

#[test]
fn escaped_punctuation_and_spacing_commands() {
    assert_eq!(latex_to_unicode("a\\,b\\;c\\!d\\%"), "a b cd%");
    assert_eq!(latex_to_unicode("a\\quad b"), "a   b");
    assert_eq!(latex_to_unicode("x~y"), "x y");
    assert_eq!(latex_to_unicode("$x$"), "x");
    assert_eq!(latex_to_unicode("end\\"), "end\\");
}

#[test]
fn unmappable_scripts_fall_back_to_caret_form() {
    assert_eq!(latex_to_unicode("x^A"), "x^A");
    assert_eq!(latex_to_unicode("x_b"), "x_b");
    assert_eq!(latex_to_unicode("x^{}"), "x^");
    assert_eq!(latex_to_unicode("\\left( x \\right)"), "( x )");
    assert_eq!(latex_to_unicode("\\text{unclosed"), "unclosed");
}

#[test]
fn plain_text_passes_through_untouched() {
    assert_eq!(latex_to_unicode("x + y = 3 (ok), ∫ α!"), "x + y = 3 (ok), ∫ α!");
    assert_eq!(latex_to_unicode(""), "");
}

#[test]
fn every_symbol_command_renders_as_its_glyph() {
    let table = [
        ("alpha", "α"), ("Omega", "Ω"), ("int", "∫"), ("infty", "∞"), ("le", "≤"), ("ne", "≠"),
        ("in", "∈"), ("to", "→"), ("Rightarrow", "⇒"), ("leftrightarrow", "↔"), ("cdots", "⋯"),
        ("degree", "°"), ("neg", "¬"), ("exists", "∃"),
    ];
    for (name, glyph) in table {
        assert_eq!(latex_to_unicode(&format!("\\{name}")), glyph, "{name}");
    }
}
