//! Renders the content of `$$...$$` math blocks as readable Unicode instead
//! of raw LaTeX source: `\frac{a}{b}` becomes `a/b`, `\sqrt` becomes `√`,
//! `^2` becomes `²`, `_0` becomes `₀`, Greek letters and common operators
//! become their glyphs. Unknown commands are dropped (the argument that
//! follows still renders) and plain text passes through unchanged.
use vstd::prelude::*;
use crate::text::{ascii_alpha, chars_of, eq_str, is_ascii_alpha, push_all, string_of, sub_chars};

verus! {

broadcast use vstd::string::group_string_axioms;

// ---------------------------------------------------------------------------
// The model: LaTeX text as a sequence of characters, read token by token.
// ---------------------------------------------------------------------------

/// End of the run of ASCII letters that starts at `i` (`i` itself when there is none).
pub open spec fn alpha_end(s: Seq<char>, i: int) -> int
    decreases s.len() - i,
{
    if 0 <= i < s.len() && is_ascii_alpha(s[i]) {
        alpha_end(s, i + 1)
    } else {
        i
    }
}

/// Index of the `}` that closes a group whose body starts at `i` with `depth`
/// braces still open; `s.len()` when the group is never closed.
pub open spec fn close_of(s: Seq<char>, i: int, depth: nat) -> int
    decreases s.len() - i,
{
    if i < 0 || i >= s.len() {
        s.len() as int
    } else if s[i] == '{' {
        close_of(s, i + 1, depth + 1)
    } else if s[i] == '}' {
        if depth <= 1 {
            i
        } else {
            close_of(s, i + 1, (depth - 1) as nat)
        }
    } else {
        close_of(s, i + 1, depth)
    }
}

/// A balanced `{...}` group at `i`: its inner text (outer braces dropped,
/// nested ones kept) and the index just past it. No `{` at `i`: empty and
/// nothing consumed. No closing brace: the rest of the input.
pub open spec fn braced(s: Seq<char>, i: int) -> (Seq<char>, int) {
    if 0 <= i < s.len() && s[i] == '{' {
        let j = close_of(s, i + 1, 1);
        (s.subrange(i + 1, j), if j < s.len() { j + 1 } else { s.len() as int })
    } else {
        (Seq::empty(), i)
    }
}

/// The argument of `^`/`_` at `i`: a braced group, a single backslash
/// command (`\infty`), or a single character.
pub open spec fn exponent(s: Seq<char>, i: int) -> (Seq<char>, int) {
    if 0 <= i < s.len() && s[i] == '{' {
        braced(s, i)
    } else if 0 <= i < s.len() && s[i] == '\\' {
        let e = alpha_end(s, i + 1);
        (s.subrange(i, e), e)
    } else if 0 <= i < s.len() {
        (seq![s[i]], i + 1)
    } else {
        (Seq::empty(), i)
    }
}

/// Commands whose single braced argument renders as itself (text styles and accents).
pub open spec fn is_passthrough_command(name: Seq<char>) -> bool {
    name == "text"@ || name == "mathrm"@ || name == "operatorname"@ || name == "mbox"@
        || name == "mathbf"@ || name == "mathit"@ || name == "textrm"@ || name == "bar"@
        || name == "hat"@ || name == "vec"@ || name == "overline"@ || name == "underline"@
        || name == "widetilde"@ || name == "widehat"@
}

/// Sizing commands that add nothing to the display.
pub open spec fn is_sizing_command(name: Seq<char>) -> bool {
    name == "left"@ || name == "right"@ || name == "big"@ || name == "Big"@ || name == "bigg"@
        || name == "Bigg"@
}

/// A character of a script argument in script form: its mapped glyph, the
/// character itself when it already is a script glyph, or nothing.
pub open spec fn script_char(c: char, sup: bool) -> Option<char> {
    let m = if sup { spec_superscript_of(c) } else { spec_subscript_of(c) };
    match m {
        Some(g) => Some(g),
        None => if spec_is_script_glyph(c) { Some(c) } else { None },
    }
}

/// A rendered script argument in super- (`sup`) or subscript form: every
/// character converted when all of them can be, else the explicit `^arg` /
/// `_arg` form so nothing is lost.
pub open spec fn spec_to_script(arg: Seq<char>, sup: bool) -> Seq<char> {
    if arg.len() > 0 && forall|k: int| 0 <= k < arg.len() ==> script_char(arg[k], sup) is Some {
        Seq::new(arg.len(), |k: int| script_char(arg[k], sup)->0)
    } else {
        seq![if sup { '^' } else { '_' }] + arg
    }
}

/// Index just past the token that starts at `i`.
pub open spec fn token_end(s: Seq<char>, i: int) -> int {
    if !(0 <= i < s.len()) {
        i
    } else if s[i] == '\\' {
        let e = alpha_end(s, i + 1);
        let name = s.subrange(i + 1, e);
        if e == i + 1 {
            if e < s.len() { e + 1 } else { e }
        } else if name == "frac"@ {
            braced(s, braced(s, e).1).1
        } else if name == "sqrt"@ || is_passthrough_command(name) {
            braced(s, e).1
        } else {
            e
        }
    } else if s[i] == '^' || s[i] == '_' {
        exponent(s, i + 1).1
    } else {
        i + 1
    }
}

/// The Unicode rendering of `s` from index `i` on.
pub open spec fn latex_from(s: Seq<char>, i: int) -> Seq<char>
    decreases s.len() - i, 1int,
{
    if 0 <= i < s.len() {
        proof {
            lemma_token_end(s, i);
        }
        token_out(s, i) + latex_from(s, token_end(s, i))
    } else {
        Seq::empty()
    }
}

/// The Unicode rendering of the single token that starts at `i`.
pub open spec fn token_out(s: Seq<char>, i: int) -> Seq<char>
    decreases s.len() - i, 0int,
{
    if !(0 <= i < s.len()) {
        Seq::empty()
    } else if s[i] == '\\' {
        let e = alpha_end(s, i + 1);
        let name = s.subrange(i + 1, e);
        proof {
            lemma_alpha_end(s, i + 1);
            lemma_braced(s, e);
            lemma_braced(s, braced(s, e).1);
        }
        if e == i + 1 {
            if e < s.len() {
                let d = s[e];
                if d == ',' || d == ';' {
                    seq![' ']
                } else if d == '!' {
                    Seq::empty()
                } else {
                    seq![d]
                }
            } else {
                seq!['\\']
            }
        } else if name == "frac"@ {
            let num = braced(s, e);
            let den = braced(s, num.1);
            latex_from(num.0, 0) + seq!['/'] + latex_from(den.0, 0)
        } else if name == "sqrt"@ {
            seq!['√'] + latex_from(braced(s, e).0, 0)
        } else if is_passthrough_command(name) {
            latex_from(braced(s, e).0, 0)
        } else if is_sizing_command(name) {
            Seq::empty()
        } else if name == "quad"@ || name == "qquad"@ {
            seq![' ', ' ']
        } else if name == "space"@ {
            seq![' ']
        } else {
            match spec_symbol(name) {
                Some(g) => seq![g],
                None => Seq::empty(),
            }
        }
    } else if s[i] == '^' || s[i] == '_' {
        proof {
            lemma_exponent(s, i + 1);
        }
        spec_to_script(latex_from(exponent(s, i + 1).0, 0), s[i] == '^')
    } else if s[i] == '{' || s[i] == '}' || s[i] == '$' {
        Seq::empty()
    } else if s[i] == '~' {
        seq![' ']
    } else {
        seq![s[i]]
    }
}

/// The Unicode rendering of LaTeX math text `s`.
pub open spec fn spec_latex_to_unicode(s: Seq<char>) -> Seq<char> {
    latex_from(s, 0)
}

// ---------------------------------------------------------------------------
// Facts about the scanners.
// ---------------------------------------------------------------------------

/// Characters that mean something to the converter.
pub open spec fn is_markup(c: char) -> bool {
    c == '\\' || c == '^' || c == '_' || c == '{' || c == '}' || c == '$' || c == '~'
}

/// Plain text passes through untouched: text without any markup
/// character renders as itself.
pub proof fn lemma_plain_text_unchanged(s: Seq<char>)
    requires
        forall|k: int| 0 <= k < s.len() ==> !is_markup(#[trigger] s[k]),
    ensures
        spec_latex_to_unicode(s) == s,
{
    lemma_plain_from(s, 0);
    assert(s.skip(0) =~= s);
}

proof fn lemma_plain_from(s: Seq<char>, i: int)
    requires
        0 <= i <= s.len(),
        forall|k: int| 0 <= k < s.len() ==> !is_markup(#[trigger] s[k]),
    ensures
        latex_from(s, i) == s.skip(i),
    decreases s.len() - i,
{
    if i < s.len() {
        assert(!is_markup(s[i]));
        assert(token_end(s, i) == i + 1);
        assert(token_out(s, i) == seq![s[i]]);
        lemma_plain_from(s, i + 1);
        assert(s.skip(i) =~= seq![s[i]] + s.skip(i + 1));
    } else {
        assert(s.skip(i) =~= Seq::<char>::empty());
    }
}

pub proof fn lemma_alpha_end(s: Seq<char>, i: int)
    requires
        0 <= i <= s.len(),
    ensures
        i <= alpha_end(s, i) <= s.len(),
        forall|k: int| i <= k < alpha_end(s, i) ==> is_ascii_alpha(#[trigger] s[k]),
        alpha_end(s, i) < s.len() ==> !is_ascii_alpha(s[alpha_end(s, i)]),
    decreases s.len() - i,
{
    if i < s.len() && is_ascii_alpha(s[i]) {
        lemma_alpha_end(s, i + 1);
    }
}

pub proof fn lemma_close_of(s: Seq<char>, i: int, depth: nat)
    requires
        0 <= i <= s.len(),
    ensures
        i <= close_of(s, i, depth) <= s.len(),
        close_of(s, i, depth) < s.len() ==> s[close_of(s, i, depth)] == '}',
    decreases s.len() - i,
{
    if i < s.len() {
        if s[i] == '{' {
            lemma_close_of(s, i + 1, depth + 1);
        } else if s[i] == '}' {
            if depth > 1 {
                lemma_close_of(s, i + 1, (depth - 1) as nat);
            }
        } else {
            lemma_close_of(s, i + 1, depth);
        }
    }
}

pub proof fn lemma_braced(s: Seq<char>, i: int)
    requires
        0 <= i <= s.len(),
    ensures
        i <= braced(s, i).1 <= s.len(),
        braced(s, i).0.len() < s.len() - i || braced(s, i).0.len() == 0,
        braced(s, i).1 == i ==> braced(s, i).0.len() == 0,
{
    if i < s.len() && s[i] == '{' {
        lemma_close_of(s, i + 1, 1);
    }
}

pub proof fn lemma_exponent(s: Seq<char>, i: int)
    requires
        0 <= i <= s.len(),
    ensures
        i <= exponent(s, i).1 <= s.len(),
        exponent(s, i).0.len() <= s.len() - i,
{
    if 0 <= i < s.len() && s[i] == '{' {
        lemma_braced(s, i);
    } else if 0 <= i < s.len() && s[i] == '\\' {
        lemma_alpha_end(s, i + 1);
    }
}

pub proof fn lemma_token_end(s: Seq<char>, i: int)
    requires
        0 <= i < s.len(),
    ensures
        i < token_end(s, i) <= s.len(),
{
    if s[i] == '\\' {
        let e = alpha_end(s, i + 1);
        lemma_alpha_end(s, i + 1);
        lemma_braced(s, e);
        lemma_braced(s, braced(s, e).1);
    } else if s[i] == '^' || s[i] == '_' {
        lemma_exponent(s, i + 1);
    }
}

/// Superscript glyph of a digit, sign, parenthesis or lowercase letter (uppercase has no general superscript form).
pub open spec fn spec_superscript_of(c: char) -> Option<char> {
    match c {
        '0' => Some('⁰'),
        '1' => Some('¹'),
        '2' => Some('²'),
        '3' => Some('³'),
        '4' => Some('⁴'),
        '5' => Some('⁵'),
        '6' => Some('⁶'),
        '7' => Some('⁷'),
        '8' => Some('⁸'),
        '9' => Some('⁹'),
        '+' => Some('⁺'),
        '-' => Some('⁻'),
        '=' => Some('⁼'),
        '(' => Some('⁽'),
        ')' => Some('⁾'),
        'a' => Some('ᵃ'),
        'b' => Some('ᵇ'),
        'c' => Some('ᶜ'),
        'd' => Some('ᵈ'),
        'e' => Some('ᵉ'),
        'f' => Some('ᶠ'),
        'g' => Some('ᵍ'),
        'h' => Some('ʰ'),
        'i' => Some('ⁱ'),
        'j' => Some('ʲ'),
        'k' => Some('ᵏ'),
        'l' => Some('ˡ'),
        'm' => Some('ᵐ'),
        'n' => Some('ⁿ'),
        'o' => Some('ᵒ'),
        'p' => Some('ᵖ'),
        'r' => Some('ʳ'),
        's' => Some('ˢ'),
        't' => Some('ᵗ'),
        'u' => Some('ᵘ'),
        'v' => Some('ᵛ'),
        'w' => Some('ʷ'),
        'x' => Some('ˣ'),
        'y' => Some('ʸ'),
        'z' => Some('ᶻ'),
        _ => None,
    }
}

fn superscript_of(c: char) -> (r: Option<char>)
    ensures
        r == spec_superscript_of(c),
{
    match c {
        '0' => Some('⁰'),
        '1' => Some('¹'),
        '2' => Some('²'),
        '3' => Some('³'),
        '4' => Some('⁴'),
        '5' => Some('⁵'),
        '6' => Some('⁶'),
        '7' => Some('⁷'),
        '8' => Some('⁸'),
        '9' => Some('⁹'),
        '+' => Some('⁺'),
        '-' => Some('⁻'),
        '=' => Some('⁼'),
        '(' => Some('⁽'),
        ')' => Some('⁾'),
        'a' => Some('ᵃ'),
        'b' => Some('ᵇ'),
        'c' => Some('ᶜ'),
        'd' => Some('ᵈ'),
        'e' => Some('ᵉ'),
        'f' => Some('ᶠ'),
        'g' => Some('ᵍ'),
        'h' => Some('ʰ'),
        'i' => Some('ⁱ'),
        'j' => Some('ʲ'),
        'k' => Some('ᵏ'),
        'l' => Some('ˡ'),
        'm' => Some('ᵐ'),
        'n' => Some('ⁿ'),
        'o' => Some('ᵒ'),
        'p' => Some('ᵖ'),
        'r' => Some('ʳ'),
        's' => Some('ˢ'),
        't' => Some('ᵗ'),
        'u' => Some('ᵘ'),
        'v' => Some('ᵛ'),
        'w' => Some('ʷ'),
        'x' => Some('ˣ'),
        'y' => Some('ʸ'),
        'z' => Some('ᶻ'),
        _ => None,
    }
}

/// Subscript glyph of a digit, sign, parenthesis or one of the letters that has a true subscript form.
pub open spec fn spec_subscript_of(c: char) -> Option<char> {
    match c {
        '0' => Some('₀'),
        '1' => Some('₁'),
        '2' => Some('₂'),
        '3' => Some('₃'),
        '4' => Some('₄'),
        '5' => Some('₅'),
        '6' => Some('₆'),
        '7' => Some('₇'),
        '8' => Some('₈'),
        '9' => Some('₉'),
        '+' => Some('₊'),
        '-' => Some('₋'),
        '=' => Some('₌'),
        '(' => Some('₍'),
        ')' => Some('₎'),
        'a' => Some('ₐ'),
        'e' => Some('ₑ'),
        'h' => Some('ₕ'),
        'i' => Some('ᵢ'),
        'j' => Some('ⱼ'),
        'k' => Some('ₖ'),
        'l' => Some('ₗ'),
        'm' => Some('ₘ'),
        'n' => Some('ₙ'),
        'o' => Some('ₒ'),
        'p' => Some('ₚ'),
        'r' => Some('ᵣ'),
        's' => Some('ₛ'),
        't' => Some('ₜ'),
        'u' => Some('ᵤ'),
        'v' => Some('ᵥ'),
        'x' => Some('ₓ'),
        _ => None,
    }
}

fn subscript_of(c: char) -> (r: Option<char>)
    ensures
        r == spec_subscript_of(c),
{
    match c {
        '0' => Some('₀'),
        '1' => Some('₁'),
        '2' => Some('₂'),
        '3' => Some('₃'),
        '4' => Some('₄'),
        '5' => Some('₅'),
        '6' => Some('₆'),
        '7' => Some('₇'),
        '8' => Some('₈'),
        '9' => Some('₉'),
        '+' => Some('₊'),
        '-' => Some('₋'),
        '=' => Some('₌'),
        '(' => Some('₍'),
        ')' => Some('₎'),
        'a' => Some('ₐ'),
        'e' => Some('ₑ'),
        'h' => Some('ₕ'),
        'i' => Some('ᵢ'),
        'j' => Some('ⱼ'),
        'k' => Some('ₖ'),
        'l' => Some('ₗ'),
        'm' => Some('ₘ'),
        'n' => Some('ₙ'),
        'o' => Some('ₒ'),
        'p' => Some('ₚ'),
        'r' => Some('ᵣ'),
        's' => Some('ₛ'),
        't' => Some('ₜ'),
        'u' => Some('ᵤ'),
        'v' => Some('ᵥ'),
        'x' => Some('ₓ'),
        _ => None,
    }
}

/// Whether `c` is already a superscript or subscript glyph from the two tables above.
pub open spec fn spec_is_script_glyph(c: char) -> bool {
    match c {
        '⁰' | '¹' | '²' | '³' | '⁴' | '⁵' | '⁶' | '⁷' | '⁸' | '⁹' | '⁺' | '⁻' | '⁼' | '⁽' | '⁾' | 'ᵃ' | 'ᵇ' | 'ᶜ' | 'ᵈ' | 'ᵉ' | 'ᶠ' | 'ᵍ' | 'ʰ' | 'ⁱ' | 'ʲ' | 'ᵏ' | 'ˡ' | 'ᵐ' | 'ⁿ' | 'ᵒ' | 'ᵖ' | 'ʳ' | 'ˢ' | 'ᵗ' | 'ᵘ' | 'ᵛ' | 'ʷ' | 'ˣ' | 'ʸ' | 'ᶻ' | '₀' | '₁' | '₂' | '₃' | '₄' | '₅' | '₆' | '₇' | '₈' | '₉' | '₊' | '₋' | '₌' | '₍' | '₎' | 'ₐ' | 'ₑ' | 'ₕ' | 'ᵢ' | 'ⱼ' | 'ₖ' | 'ₗ' | 'ₘ' | 'ₙ' | 'ₒ' | 'ₚ' | 'ᵣ' | 'ₛ' | 'ₜ' | 'ᵤ' | 'ᵥ' | 'ₓ' => true,
        _ => false,
    }
}

fn is_script_glyph(c: char) -> (b: bool)
    ensures
        b == spec_is_script_glyph(c),
{
    match c {
        '⁰' | '¹' | '²' | '³' | '⁴' | '⁵' | '⁶' | '⁷' | '⁸' | '⁹' | '⁺' | '⁻' | '⁼' | '⁽' | '⁾' | 'ᵃ' | 'ᵇ' | 'ᶜ' | 'ᵈ' | 'ᵉ' | 'ᶠ' | 'ᵍ' | 'ʰ' | 'ⁱ' | 'ʲ' | 'ᵏ' | 'ˡ' | 'ᵐ' | 'ⁿ' | 'ᵒ' | 'ᵖ' | 'ʳ' | 'ˢ' | 'ᵗ' | 'ᵘ' | 'ᵛ' | 'ʷ' | 'ˣ' | 'ʸ' | 'ᶻ' | '₀' | '₁' | '₂' | '₃' | '₄' | '₅' | '₆' | '₇' | '₈' | '₉' | '₊' | '₋' | '₌' | '₍' | '₎' | 'ₐ' | 'ₑ' | 'ₕ' | 'ᵢ' | 'ⱼ' | 'ₖ' | 'ₗ' | 'ₘ' | 'ₙ' | 'ₒ' | 'ₚ' | 'ᵣ' | 'ₛ' | 'ₜ' | 'ᵤ' | 'ᵥ' | 'ₓ' => true,
        _ => false,
    }
}

/// Greek letters and common math operators: the glyph a command name stands for.
pub open spec fn spec_symbol(name: Seq<char>) -> Option<char> {
    if name == "alpha"@ {
        Some('α')
    } else if name == "beta"@ {
        Some('β')
    } else if name == "gamma"@ {
        Some('γ')
    } else if name == "delta"@ {
        Some('δ')
    } else if name == "epsilon"@ {
        Some('ε')
    } else if name == "zeta"@ {
        Some('ζ')
    } else if name == "eta"@ {
        Some('η')
    } else if name == "theta"@ {
        Some('θ')
    } else if name == "iota"@ {
        Some('ι')
    } else if name == "kappa"@ {
        Some('κ')
    } else if name == "lambda"@ {
        Some('λ')
    } else if name == "mu"@ {
        Some('μ')
    } else if name == "nu"@ {
        Some('ν')
    } else if name == "xi"@ {
        Some('ξ')
    } else if name == "omicron"@ {
        Some('ο')
    } else if name == "pi"@ {
        Some('π')
    } else if name == "rho"@ {
        Some('ρ')
    } else if name == "sigma"@ {
        Some('σ')
    } else if name == "tau"@ {
        Some('τ')
    } else if name == "upsilon"@ {
        Some('υ')
    } else if name == "phi"@ {
        Some('φ')
    } else if name == "chi"@ {
        Some('χ')
    } else if name == "psi"@ {
        Some('ψ')
    } else if name == "omega"@ {
        Some('ω')
    } else if name == "Gamma"@ {
        Some('Γ')
    } else if name == "Delta"@ {
        Some('Δ')
    } else if name == "Theta"@ {
        Some('Θ')
    } else if name == "Lambda"@ {
        Some('Λ')
    } else if name == "Xi"@ {
        Some('Ξ')
    } else if name == "Pi"@ {
        Some('Π')
    } else if name == "Sigma"@ {
        Some('Σ')
    } else if name == "Phi"@ {
        Some('Φ')
    } else if name == "Psi"@ {
        Some('Ψ')
    } else if name == "Omega"@ {
        Some('Ω')
    } else if name == "int"@ {
        Some('∫')
    } else if name == "oint"@ {
        Some('∮')
    } else if name == "sum"@ {
        Some('∑')
    } else if name == "prod"@ {
        Some('∏')
    } else if name == "infty"@ {
        Some('∞')
    } else if name == "partial"@ {
        Some('∂')
    } else if name == "nabla"@ {
        Some('∇')
    } else if name == "prime"@ {
        Some('′')
    } else if name == "degree"@ {
        Some('°')
    } else if name == "cdot"@ {
        Some('·')
    } else if name == "times"@ {
        Some('×')
    } else if name == "div"@ {
        Some('÷')
    } else if name == "pm"@ {
        Some('±')
    } else if name == "mp"@ {
        Some('∓')
    } else if name == "approx"@ {
        Some('≈')
    } else if name == "equiv"@ {
        Some('≡')
    } else if name == "leq"@ {
        Some('≤')
    } else if name == "le"@ {
        Some('≤')
    } else if name == "geq"@ {
        Some('≥')
    } else if name == "ge"@ {
        Some('≥')
    } else if name == "neq"@ {
        Some('≠')
    } else if name == "ne"@ {
        Some('≠')
    } else if name == "in"@ {
        Some('∈')
    } else if name == "notin"@ {
        Some('∉')
    } else if name == "subset"@ {
        Some('⊂')
    } else if name == "subseteq"@ {
        Some('⊆')
    } else if name == "supset"@ {
        Some('⊃')
    } else if name == "cup"@ {
        Some('∪')
    } else if name == "cap"@ {
        Some('∩')
    } else if name == "land"@ {
        Some('∧')
    } else if name == "lor"@ {
        Some('∨')
    } else if name == "neg"@ {
        Some('¬')
    } else if name == "forall"@ {
        Some('∀')
    } else if name == "exists"@ {
        Some('∃')
    } else if name == "to"@ {
        Some('→')
    } else if name == "rightarrow"@ {
        Some('→')
    } else if name == "leftarrow"@ {
        Some('←')
    } else if name == "leftrightarrow"@ {
        Some('↔')
    } else if name == "Rightarrow"@ {
        Some('⇒')
    } else if name == "Leftarrow"@ {
        Some('⇐')
    } else if name == "dots"@ {
        Some('…')
    } else if name == "ldots"@ {
        Some('…')
    } else if name == "cdots"@ {
        Some('⋯')
    } else {
        None
    }
}

/// The glyph of a Greek-letter or operator command, looked up by its name.
fn symbols(name: &[char]) -> (r: Option<char>)
    ensures
        r == spec_symbol(name@),
{
    if eq_str(name, "alpha") {
        Some('α')
    } else if eq_str(name, "beta") {
        Some('β')
    } else if eq_str(name, "gamma") {
        Some('γ')
    } else if eq_str(name, "delta") {
        Some('δ')
    } else if eq_str(name, "epsilon") {
        Some('ε')
    } else if eq_str(name, "zeta") {
        Some('ζ')
    } else if eq_str(name, "eta") {
        Some('η')
    } else if eq_str(name, "theta") {
        Some('θ')
    } else if eq_str(name, "iota") {
        Some('ι')
    } else if eq_str(name, "kappa") {
        Some('κ')
    } else if eq_str(name, "lambda") {
        Some('λ')
    } else if eq_str(name, "mu") {
        Some('μ')
    } else if eq_str(name, "nu") {
        Some('ν')
    } else if eq_str(name, "xi") {
        Some('ξ')
    } else if eq_str(name, "omicron") {
        Some('ο')
    } else if eq_str(name, "pi") {
        Some('π')
    } else if eq_str(name, "rho") {
        Some('ρ')
    } else if eq_str(name, "sigma") {
        Some('σ')
    } else if eq_str(name, "tau") {
        Some('τ')
    } else if eq_str(name, "upsilon") {
        Some('υ')
    } else if eq_str(name, "phi") {
        Some('φ')
    } else if eq_str(name, "chi") {
        Some('χ')
    } else if eq_str(name, "psi") {
        Some('ψ')
    } else if eq_str(name, "omega") {
        Some('ω')
    } else if eq_str(name, "Gamma") {
        Some('Γ')
    } else if eq_str(name, "Delta") {
        Some('Δ')
    } else if eq_str(name, "Theta") {
        Some('Θ')
    } else if eq_str(name, "Lambda") {
        Some('Λ')
    } else if eq_str(name, "Xi") {
        Some('Ξ')
    } else if eq_str(name, "Pi") {
        Some('Π')
    } else if eq_str(name, "Sigma") {
        Some('Σ')
    } else if eq_str(name, "Phi") {
        Some('Φ')
    } else if eq_str(name, "Psi") {
        Some('Ψ')
    } else if eq_str(name, "Omega") {
        Some('Ω')
    } else if eq_str(name, "int") {
        Some('∫')
    } else if eq_str(name, "oint") {
        Some('∮')
    } else if eq_str(name, "sum") {
        Some('∑')
    } else if eq_str(name, "prod") {
        Some('∏')
    } else if eq_str(name, "infty") {
        Some('∞')
    } else if eq_str(name, "partial") {
        Some('∂')
    } else if eq_str(name, "nabla") {
        Some('∇')
    } else if eq_str(name, "prime") {
        Some('′')
    } else if eq_str(name, "degree") {
        Some('°')
    } else if eq_str(name, "cdot") {
        Some('·')
    } else if eq_str(name, "times") {
        Some('×')
    } else if eq_str(name, "div") {
        Some('÷')
    } else if eq_str(name, "pm") {
        Some('±')
    } else if eq_str(name, "mp") {
        Some('∓')
    } else if eq_str(name, "approx") {
        Some('≈')
    } else if eq_str(name, "equiv") {
        Some('≡')
    } else if eq_str(name, "leq") {
        Some('≤')
    } else if eq_str(name, "le") {
        Some('≤')
    } else if eq_str(name, "geq") {
        Some('≥')
    } else if eq_str(name, "ge") {
        Some('≥')
    } else if eq_str(name, "neq") {
        Some('≠')
    } else if eq_str(name, "ne") {
        Some('≠')
    } else if eq_str(name, "in") {
        Some('∈')
    } else if eq_str(name, "notin") {
        Some('∉')
    } else if eq_str(name, "subset") {
        Some('⊂')
    } else if eq_str(name, "subseteq") {
        Some('⊆')
    } else if eq_str(name, "supset") {
        Some('⊃')
    } else if eq_str(name, "cup") {
        Some('∪')
    } else if eq_str(name, "cap") {
        Some('∩')
    } else if eq_str(name, "land") {
        Some('∧')
    } else if eq_str(name, "lor") {
        Some('∨')
    } else if eq_str(name, "neg") {
        Some('¬')
    } else if eq_str(name, "forall") {
        Some('∀')
    } else if eq_str(name, "exists") {
        Some('∃')
    } else if eq_str(name, "to") {
        Some('→')
    } else if eq_str(name, "rightarrow") {
        Some('→')
    } else if eq_str(name, "leftarrow") {
        Some('←')
    } else if eq_str(name, "leftrightarrow") {
        Some('↔')
    } else if eq_str(name, "Rightarrow") {
        Some('⇒')
    } else if eq_str(name, "Leftarrow") {
        Some('⇐')
    } else if eq_str(name, "dots") {
        Some('…')
    } else if eq_str(name, "ldots") {
        Some('…')
    } else if eq_str(name, "cdots") {
        Some('⋯')
    } else {
        None
    }
}

// ---------------------------------------------------------------------------
// The converter.
// ---------------------------------------------------------------------------

/// End of the run of ASCII letters starting at `i`.
fn read_alpha_end(s: &[char], i: usize) -> (e: usize)
    requires
        i <= s@.len(),
    ensures
        e == alpha_end(s@, i as int),
{
    let mut e = i;
    while e < s.len() && ascii_alpha(s[e])
        invariant
            i <= e <= s@.len(),
            alpha_end(s@, e as int) == alpha_end(s@, i as int),
        decreases s.len() - e,
    {
        e = e + 1;
    }
    e
}

/// Reads a balanced `{...}` group at `i`, returning its raw inner text (the
/// outer braces consumed, nested braces kept) and the index just past it.
/// No opening `{` at `i`: empty and nothing consumed; no closing brace: the
/// rest of the input.
fn read_braced(s: &[char], i: usize) -> (r: (Vec<char>, usize))
    requires
        i <= s@.len(),
    ensures
        r.0@ == braced(s@, i as int).0,
        r.1 == braced(s@, i as int).1,
{
    if !(i < s.len() && s[i] == '{') {
        return (Vec::new(), i);
    }
    let mut depth: usize = 1;
    let mut j = i + 1;
    proof {
        lemma_close_of(s@, j as int, 1);
    }
    while j < s.len()
        invariant
            i < j <= s@.len(),
            s@[i as int] == '{',
            1 <= depth <= j - i,
            close_of(s@, j as int, depth as nat) == close_of(s@, i + 1, 1),
        decreases s.len() - j,
    {
        if s[j] == '{' {
            depth = depth + 1;
        } else if s[j] == '}' {
            if depth == 1 {
                assert(close_of(s@, j as int, 1) == j);
                let inner = sub_chars(s, i + 1, j);
                return (inner, j + 1);
            }
            depth = depth - 1;
        }
        j = j + 1;
    }
    assert(close_of(s@, j as int, depth as nat) == s@.len());
    let inner = sub_chars(s, i + 1, s.len());
    (inner, s.len())
}

/// Reads the argument of `^`/`_` at `i`: a `{...}` group, a single
/// backslash command (`\infty`), or a single character.
fn read_exponent(s: &[char], i: usize) -> (r: (Vec<char>, usize))
    requires
        i <= s@.len(),
    ensures
        r.0@ == exponent(s@, i as int).0,
        r.1 == exponent(s@, i as int).1,
{
    if i < s.len() && s[i] == '{' {
        read_braced(s, i)
    } else if i < s.len() && s[i] == '\\' {
        let e = read_alpha_end(s, i + 1);
        proof {
            lemma_alpha_end(s@, i + 1);
        }
        (sub_chars(s, i, e), e)
    } else if i < s.len() {
        let mut v: Vec<char> = Vec::new();
        v.push(s[i]);
        assert(v@ =~= seq![s@[i as int]]);
        (v, i + 1)
    } else {
        (Vec::new(), i)
    }
}

fn script_char_of(c: char, sup: bool) -> (r: Option<char>)
    ensures
        r == script_char(c, sup),
{
    let m = if sup { superscript_of(c) } else { subscript_of(c) };
    match m {
        Some(g) => Some(g),
        None => if is_script_glyph(c) { Some(c) } else { None },
    }
}

/// Converts an already-rendered script argument to super- or subscript
/// text: every character converted when all of them can be, else the
/// explicit `^arg`/`_arg` form.
fn to_script(arg: &[char], sup: bool) -> (r: Vec<char>)
    ensures
        r@ == spec_to_script(arg@, sup),
{
    let mut mapped: Vec<char> = Vec::new();
    let mut all = true;
    let mut k: usize = 0;
    while k < arg.len()
        invariant
            0 <= k <= arg@.len(),
            all ==> forall|j: int| 0 <= j < k ==> script_char(arg@[j], sup) is Some,
            all ==> mapped@ == Seq::new(k as nat, |j: int| script_char(arg@[j], sup)->0),
            !all ==> k == arg@.len(),
            !all ==> exists|j: int| 0 <= j < arg@.len() && script_char(arg@[j], sup) is None,
        decreases arg.len() - k,
    {
        match script_char_of(arg[k], sup) {
            Some(g) => {
                mapped.push(g);
                k = k + 1;
                assert(mapped@ =~= Seq::new(k as nat, |j: int| script_char(arg@[j], sup)->0));
            },
            None => {
                all = false;
                k = arg.len();
            },
        }
    }
    if all && arg.len() > 0 {
        mapped
    } else {
        let mut out: Vec<char> = Vec::new();
        out.push(if sup { '^' } else { '_' });
        push_all(&mut out, arg);
        out
    }
}

/// Renders the token of `s` that starts at `i`; returns the rendering and
/// the index just past the token.
fn token(s: &[char], i: usize) -> (r: (Vec<char>, usize))
    requires
        i < s@.len(),
    ensures
        r.0@ == token_out(s@, i as int),
        r.1 == token_end(s@, i as int),
    decreases s@.len() - i, 0int,
{
    let c = s[i];
    let mut out: Vec<char> = Vec::new();
    if c == '\\' {
        let e = read_alpha_end(s, i + 1);
        proof {
            lemma_alpha_end(s@, i + 1);
        }
        let name = sub_chars(s, i + 1, e);
        if e == i + 1 {
            if e < s.len() {
                let d = s[e];
                if d == ',' || d == ';' {
                    out.push(' ');
                } else if d == '!' {
                } else {
                    out.push(d);
                }
                assert(out@ =~= token_out(s@, i as int));
                return (out, e + 1);
            }
            out.push('\\');
            assert(out@ =~= token_out(s@, i as int));
            return (out, e);
        }
        if eq_str(&name, "frac") {
            let (num, k1) = read_braced(s, e);
            proof {
                lemma_braced(s@, e as int);
            }
            let (den, k2) = read_braced(s, k1);
            proof {
                lemma_braced(s@, k1 as int);
            }
            let a = latex_chars(&num);
            let b = latex_chars(&den);
            push_all(&mut out, &a);
            out.push('/');
            push_all(&mut out, &b);
            assert(out@ =~= token_out(s@, i as int));
            return (out, k2);
        }
        if eq_str(&name, "sqrt") {
            let (inner, k) = read_braced(s, e);
            proof {
                lemma_braced(s@, e as int);
            }
            let a = latex_chars(&inner);
            out.push('√');
            push_all(&mut out, &a);
            assert(out@ =~= token_out(s@, i as int));
            return (out, k);
        }
        if passthrough_command(&name) {
            let (inner, k) = read_braced(s, e);
            proof {
                lemma_braced(s@, e as int);
            }
            let a = latex_chars(&inner);
            assert(a@ =~= token_out(s@, i as int));
            return (a, k);
        }
        if sizing_command(&name) {
        } else if eq_str(&name, "quad") || eq_str(&name, "qquad") {
            out.push(' ');
            out.push(' ');
        } else if eq_str(&name, "space") {
            out.push(' ');
        } else {
            match symbols(&name) {
                Some(g) => out.push(g),
                None => {},
            }
        }
        assert(out@ =~= token_out(s@, i as int));
        return (out, e);
    }
    if c == '^' || c == '_' {
        let (arg, k) = read_exponent(s, i + 1);
        proof {
            lemma_exponent(s@, i + 1);
        }
        let rendered = latex_chars(&arg);
        let r = to_script(&rendered, c == '^');
        return (r, k);
    }
    if c == '{' || c == '}' || c == '$' {
    } else if c == '~' {
        out.push(' ');
    } else {
        out.push(c);
    }
    assert(out@ =~= token_out(s@, i as int));
    (out, i + 1)
}

fn passthrough_command(name: &[char]) -> (b: bool)
    ensures
        b == is_passthrough_command(name@),
{
    eq_str(name, "text") || eq_str(name, "mathrm") || eq_str(name, "operatorname")
        || eq_str(name, "mbox") || eq_str(name, "mathbf") || eq_str(name, "mathit")
        || eq_str(name, "textrm") || eq_str(name, "bar") || eq_str(name, "hat")
        || eq_str(name, "vec") || eq_str(name, "overline") || eq_str(name, "underline")
        || eq_str(name, "widetilde") || eq_str(name, "widehat")
}

fn sizing_command(name: &[char]) -> (b: bool)
    ensures
        b == is_sizing_command(name@),
{
    eq_str(name, "left") || eq_str(name, "right") || eq_str(name, "big") || eq_str(name, "Big")
        || eq_str(name, "bigg") || eq_str(name, "Bigg")
}

/// Renders the characters of `s` token by token.
fn latex_chars(s: &[char]) -> (out: Vec<char>)
    ensures
        out@ == latex_from(s@, 0),
    decreases s@.len(), 1int,
{
    let mut out: Vec<char> = Vec::new();
    let mut i: usize = 0;
    while i < s.len()
        invariant
            0 <= i <= s@.len(),
            out@ + latex_from(s@, i as int) == latex_from(s@, 0),
        decreases s.len() - i,
    {
        let (piece, next) = token(s, i);
        proof {
            lemma_token_end(s@, i as int);
            assert(latex_from(s@, i as int) == token_out(s@, i as int) + latex_from(s@, next as int));
        }
        let ghost before = out@;
        push_all(&mut out, &piece);
        assert(out@ + latex_from(s@, next as int) =~= before + latex_from(s@, i as int));
        i = next;
    }
    assert(latex_from(s@, i as int) =~= Seq::<char>::empty());
    assert(out@ =~= out@ + latex_from(s@, i as int));
    out
}

/// Converts LaTeX math markup to Unicode text. Unknown commands are dropped
/// (their following argument still renders); unknown literal text passes
/// through untouched.
pub fn latex_to_unicode(input: &str) -> (r: String)
    ensures
        r@ == spec_latex_to_unicode(input@),
{
    let s = chars_of(input);
    let out = latex_chars(&s);
    string_of(&out)
}

// ---------------------------------------------------------------------------
// The symbol table and the commands handled by themselves
// ---------------------------------------------------------------------------

/// A name that the symbol table may hold: a non-empty run of ASCII letters
/// (so the scanner reads the whole of it as one command) that is none of
/// the commands the converter handles itself.
pub open spec fn plain_symbol_name(name: Seq<char>) -> bool {
    &&& name.len() > 0
    &&& forall|k: int| 0 <= k < name.len() ==> is_ascii_alpha(#[trigger] name[k])
    &&& name != "frac"@
    &&& name != "sqrt"@
    &&& !is_passthrough_command(name)
    &&& !is_sizing_command(name)
    &&& name != "quad"@
    &&& name != "qquad"@
    &&& name != "space"@
}

/// Whether a name of length `len` starting with `c0`, `c1` could be one of
/// the commands the converter handles itself (they differ from each other,
/// and from every symbol name, in length or in their first two letters).
pub open spec fn command_prefix(len: nat, c0: char, c1: char) -> bool {
    (len == 4 && c0 == 'f' && c1 == 'r')
        || (len == 4 && c0 == 's' && c1 == 'q')
        || (len == 4 && c0 == 't' && c1 == 'e')
        || (len == 6 && c0 == 'm' && c1 == 'a')
        || (len == 12 && c0 == 'o' && c1 == 'p')
        || (len == 4 && c0 == 'm' && c1 == 'b')
        || (len == 6 && c0 == 'm' && c1 == 'a')
        || (len == 6 && c0 == 'm' && c1 == 'a')
        || (len == 6 && c0 == 't' && c1 == 'e')
        || (len == 3 && c0 == 'b' && c1 == 'a')
        || (len == 3 && c0 == 'h' && c1 == 'a')
        || (len == 3 && c0 == 'v' && c1 == 'e')
        || (len == 8 && c0 == 'o' && c1 == 'v')
        || (len == 9 && c0 == 'u' && c1 == 'n')
        || (len == 9 && c0 == 'w' && c1 == 'i')
        || (len == 7 && c0 == 'w' && c1 == 'i')
        || (len == 4 && c0 == 'l' && c1 == 'e')
        || (len == 5 && c0 == 'r' && c1 == 'i')
        || (len == 3 && c0 == 'b' && c1 == 'i')
        || (len == 3 && c0 == 'B' && c1 == 'i')
        || (len == 4 && c0 == 'b' && c1 == 'i')
        || (len == 4 && c0 == 'B' && c1 == 'i')
        || (len == 4 && c0 == 'q' && c1 == 'u')
        || (len == 5 && c0 == 'q' && c1 == 'q')
        || (len == 5 && c0 == 's' && c1 == 'p')
}

/// A name of at least two ASCII letters whose length and first two letters
/// are those of none of the converter's own commands is a plain symbol
/// name.
proof fn lemma_plain_name(name: Seq<char>)
    requires
        name.len() >= 2,
        forall|k: int| 0 <= k < name.len() ==> is_ascii_alpha(#[trigger] name[k]),
        !command_prefix(name.len(), name[0], name[1]),
    ensures
        plain_symbol_name(name),
{
    reveal_strlit("frac");
    reveal_strlit("sqrt");
    reveal_strlit("text");
    reveal_strlit("mathrm");
    reveal_strlit("operatorname");
    reveal_strlit("mbox");
    reveal_strlit("mathbf");
    reveal_strlit("mathit");
    reveal_strlit("textrm");
    reveal_strlit("bar");
    reveal_strlit("hat");
    reveal_strlit("vec");
    reveal_strlit("overline");
    reveal_strlit("underline");
    reveal_strlit("widetilde");
    reveal_strlit("widehat");
    reveal_strlit("left");
    reveal_strlit("right");
    reveal_strlit("big");
    reveal_strlit("Big");
    reveal_strlit("bigg");
    reveal_strlit("Bigg");
    reveal_strlit("quad");
    reveal_strlit("qquad");
    reveal_strlit("space");
}

/// Every name of the symbol table is a non-empty run of ASCII letters and
/// none of the commands that the converter handles itself (`frac`, `sqrt`,
/// the text styles and accents, the sizing commands, `quad`, `qquad`,
/// `space`), so every entry is reachable: the command made of a backslash
/// and the name renders as exactly its glyph.
pub proof fn lemma_symbol_renders(name: Seq<char>)
    requires
        spec_symbol(name) is Some,
    ensures
        plain_symbol_name(name),
        spec_latex_to_unicode(seq!['\\'] + name) == seq![spec_symbol(name)->0],
{
    if name == "alpha"@ {
        reveal_strlit("alpha");
        lemma_plain_name(name);
    } else if name == "beta"@ {
        reveal_strlit("beta");
        lemma_plain_name(name);
    } else if name == "gamma"@ {
        reveal_strlit("gamma");
        lemma_plain_name(name);
    } else if name == "delta"@ {
        reveal_strlit("delta");
        lemma_plain_name(name);
    } else if name == "epsilon"@ {
        reveal_strlit("epsilon");
        lemma_plain_name(name);
    } else if name == "zeta"@ {
        reveal_strlit("zeta");
        lemma_plain_name(name);
    } else if name == "eta"@ {
        reveal_strlit("eta");
        lemma_plain_name(name);
    } else if name == "theta"@ {
        reveal_strlit("theta");
        lemma_plain_name(name);
    } else if name == "iota"@ {
        reveal_strlit("iota");
        lemma_plain_name(name);
    } else if name == "kappa"@ {
        reveal_strlit("kappa");
        lemma_plain_name(name);
    } else if name == "lambda"@ {
        reveal_strlit("lambda");
        lemma_plain_name(name);
    } else if name == "mu"@ {
        reveal_strlit("mu");
        lemma_plain_name(name);
    } else if name == "nu"@ {
        reveal_strlit("nu");
        lemma_plain_name(name);
    } else if name == "xi"@ {
        reveal_strlit("xi");
        lemma_plain_name(name);
    } else if name == "omicron"@ {
        reveal_strlit("omicron");
        lemma_plain_name(name);
    } else if name == "pi"@ {
        reveal_strlit("pi");
        lemma_plain_name(name);
    } else if name == "rho"@ {
        reveal_strlit("rho");
        lemma_plain_name(name);
    } else if name == "sigma"@ {
        reveal_strlit("sigma");
        lemma_plain_name(name);
    } else if name == "tau"@ {
        reveal_strlit("tau");
        lemma_plain_name(name);
    } else if name == "upsilon"@ {
        reveal_strlit("upsilon");
        lemma_plain_name(name);
    } else if name == "phi"@ {
        reveal_strlit("phi");
        lemma_plain_name(name);
    } else if name == "chi"@ {
        reveal_strlit("chi");
        lemma_plain_name(name);
    } else if name == "psi"@ {
        reveal_strlit("psi");
        lemma_plain_name(name);
    } else if name == "omega"@ {
        reveal_strlit("omega");
        lemma_plain_name(name);
    } else if name == "Gamma"@ {
        reveal_strlit("Gamma");
        lemma_plain_name(name);
    } else if name == "Delta"@ {
        reveal_strlit("Delta");
        lemma_plain_name(name);
    } else if name == "Theta"@ {
        reveal_strlit("Theta");
        lemma_plain_name(name);
    } else if name == "Lambda"@ {
        reveal_strlit("Lambda");
        lemma_plain_name(name);
    } else if name == "Xi"@ {
        reveal_strlit("Xi");
        lemma_plain_name(name);
    } else if name == "Pi"@ {
        reveal_strlit("Pi");
        lemma_plain_name(name);
    } else if name == "Sigma"@ {
        reveal_strlit("Sigma");
        lemma_plain_name(name);
    } else if name == "Phi"@ {
        reveal_strlit("Phi");
        lemma_plain_name(name);
    } else if name == "Psi"@ {
        reveal_strlit("Psi");
        lemma_plain_name(name);
    } else if name == "Omega"@ {
        reveal_strlit("Omega");
        lemma_plain_name(name);
    } else if name == "int"@ {
        reveal_strlit("int");
        lemma_plain_name(name);
    } else if name == "oint"@ {
        reveal_strlit("oint");
        lemma_plain_name(name);
    } else if name == "sum"@ {
        reveal_strlit("sum");
        lemma_plain_name(name);
    } else if name == "prod"@ {
        reveal_strlit("prod");
        lemma_plain_name(name);
    } else if name == "infty"@ {
        reveal_strlit("infty");
        lemma_plain_name(name);
    } else if name == "partial"@ {
        reveal_strlit("partial");
        lemma_plain_name(name);
    } else if name == "nabla"@ {
        reveal_strlit("nabla");
        lemma_plain_name(name);
    } else if name == "prime"@ {
        reveal_strlit("prime");
        lemma_plain_name(name);
    } else if name == "degree"@ {
        reveal_strlit("degree");
        lemma_plain_name(name);
    } else if name == "cdot"@ {
        reveal_strlit("cdot");
        lemma_plain_name(name);
    } else if name == "times"@ {
        reveal_strlit("times");
        lemma_plain_name(name);
    } else if name == "div"@ {
        reveal_strlit("div");
        lemma_plain_name(name);
    } else if name == "pm"@ {
        reveal_strlit("pm");
        lemma_plain_name(name);
    } else if name == "mp"@ {
        reveal_strlit("mp");
        lemma_plain_name(name);
    } else if name == "approx"@ {
        reveal_strlit("approx");
        lemma_plain_name(name);
    } else if name == "equiv"@ {
        reveal_strlit("equiv");
        lemma_plain_name(name);
    } else if name == "leq"@ {
        reveal_strlit("leq");
        lemma_plain_name(name);
    } else if name == "le"@ {
        reveal_strlit("le");
        lemma_plain_name(name);
    } else if name == "geq"@ {
        reveal_strlit("geq");
        lemma_plain_name(name);
    } else if name == "ge"@ {
        reveal_strlit("ge");
        lemma_plain_name(name);
    } else if name == "neq"@ {
        reveal_strlit("neq");
        lemma_plain_name(name);
    } else if name == "ne"@ {
        reveal_strlit("ne");
        lemma_plain_name(name);
    } else if name == "in"@ {
        reveal_strlit("in");
        lemma_plain_name(name);
    } else if name == "notin"@ {
        reveal_strlit("notin");
        lemma_plain_name(name);
    } else if name == "subset"@ {
        reveal_strlit("subset");
        lemma_plain_name(name);
    } else if name == "subseteq"@ {
        reveal_strlit("subseteq");
        lemma_plain_name(name);
    } else if name == "supset"@ {
        reveal_strlit("supset");
        lemma_plain_name(name);
    } else if name == "cup"@ {
        reveal_strlit("cup");
        lemma_plain_name(name);
    } else if name == "cap"@ {
        reveal_strlit("cap");
        lemma_plain_name(name);
    } else if name == "land"@ {
        reveal_strlit("land");
        lemma_plain_name(name);
    } else if name == "lor"@ {
        reveal_strlit("lor");
        lemma_plain_name(name);
    } else if name == "neg"@ {
        reveal_strlit("neg");
        lemma_plain_name(name);
    } else if name == "forall"@ {
        reveal_strlit("forall");
        lemma_plain_name(name);
    } else if name == "exists"@ {
        reveal_strlit("exists");
        lemma_plain_name(name);
    } else if name == "to"@ {
        reveal_strlit("to");
        lemma_plain_name(name);
    } else if name == "rightarrow"@ {
        reveal_strlit("rightarrow");
        lemma_plain_name(name);
    } else if name == "leftarrow"@ {
        reveal_strlit("leftarrow");
        lemma_plain_name(name);
    } else if name == "leftrightarrow"@ {
        reveal_strlit("leftrightarrow");
        lemma_plain_name(name);
    } else if name == "Rightarrow"@ {
        reveal_strlit("Rightarrow");
        lemma_plain_name(name);
    } else if name == "Leftarrow"@ {
        reveal_strlit("Leftarrow");
        lemma_plain_name(name);
    } else if name == "dots"@ {
        reveal_strlit("dots");
        lemma_plain_name(name);
    } else if name == "ldots"@ {
        reveal_strlit("ldots");
        lemma_plain_name(name);
    } else if name == "cdots"@ {
        reveal_strlit("cdots");
        lemma_plain_name(name);
    }
    let s = seq!['\\'] + name;
    assert(s.subrange(1, s.len() as int) =~= name);
    lemma_alpha_run(s, 1);
    assert(token_end(s, 0) == s.len());
    assert(latex_from(s, s.len() as int) =~= Seq::<char>::empty());
    assert(latex_from(s, 0) == token_out(s, 0) + latex_from(s, token_end(s, 0)));
}

proof fn lemma_glyphs_0()
    ensures
        spec_latex_to_unicode(seq!['\\'] + "alpha"@) == seq!['\u{3b1}'],
        spec_latex_to_unicode(seq!['\\'] + "beta"@) == seq!['\u{3b2}'],
        spec_latex_to_unicode(seq!['\\'] + "gamma"@) == seq!['\u{3b3}'],
        spec_latex_to_unicode(seq!['\\'] + "delta"@) == seq!['\u{3b4}'],
        spec_latex_to_unicode(seq!['\\'] + "epsilon"@) == seq!['\u{3b5}'],
        spec_latex_to_unicode(seq!['\\'] + "zeta"@) == seq!['\u{3b6}'],
        spec_latex_to_unicode(seq!['\\'] + "eta"@) == seq!['\u{3b7}'],
        spec_latex_to_unicode(seq!['\\'] + "theta"@) == seq!['\u{3b8}'],
        spec_latex_to_unicode(seq!['\\'] + "iota"@) == seq!['\u{3b9}'],
        spec_latex_to_unicode(seq!['\\'] + "kappa"@) == seq!['\u{3ba}'],
        spec_latex_to_unicode(seq!['\\'] + "lambda"@) == seq!['\u{3bb}'],
        spec_latex_to_unicode(seq!['\\'] + "mu"@) == seq!['\u{3bc}'],
        spec_latex_to_unicode(seq!['\\'] + "nu"@) == seq!['\u{3bd}'],
{
    reveal_strlit("alpha");
    reveal_strlit("beta");
    reveal_strlit("gamma");
    reveal_strlit("delta");
    reveal_strlit("epsilon");
    reveal_strlit("zeta");
    reveal_strlit("eta");
    reveal_strlit("theta");
    reveal_strlit("iota");
    reveal_strlit("kappa");
    reveal_strlit("lambda");
    reveal_strlit("mu");
    reveal_strlit("nu");
    reveal_strlit("xi");
    reveal_strlit("omicron");
    reveal_strlit("pi");
    reveal_strlit("rho");
    reveal_strlit("sigma");
    reveal_strlit("tau");
    reveal_strlit("upsilon");
    reveal_strlit("phi");
    reveal_strlit("chi");
    reveal_strlit("psi");
    reveal_strlit("omega");
    reveal_strlit("Gamma");
    reveal_strlit("Delta");
    reveal_strlit("Theta");
    reveal_strlit("Lambda");
    reveal_strlit("Xi");
    reveal_strlit("Pi");
    reveal_strlit("Sigma");
    reveal_strlit("Phi");
    reveal_strlit("Psi");
    reveal_strlit("Omega");
    reveal_strlit("int");
    reveal_strlit("oint");
    reveal_strlit("sum");
    reveal_strlit("prod");
    reveal_strlit("infty");
    reveal_strlit("partial");
    reveal_strlit("nabla");
    reveal_strlit("prime");
    reveal_strlit("degree");
    reveal_strlit("cdot");
    reveal_strlit("times");
    reveal_strlit("div");
    reveal_strlit("pm");
    reveal_strlit("mp");
    reveal_strlit("approx");
    reveal_strlit("equiv");
    reveal_strlit("leq");
    reveal_strlit("le");
    reveal_strlit("geq");
    reveal_strlit("ge");
    reveal_strlit("neq");
    reveal_strlit("ne");
    reveal_strlit("in");
    reveal_strlit("notin");
    reveal_strlit("subset");
    reveal_strlit("subseteq");
    reveal_strlit("supset");
    reveal_strlit("cup");
    reveal_strlit("cap");
    reveal_strlit("land");
    reveal_strlit("lor");
    reveal_strlit("neg");
    reveal_strlit("forall");
    reveal_strlit("exists");
    reveal_strlit("to");
    reveal_strlit("rightarrow");
    reveal_strlit("leftarrow");
    reveal_strlit("leftrightarrow");
    reveal_strlit("Rightarrow");
    reveal_strlit("Leftarrow");
    reveal_strlit("dots");
    reveal_strlit("ldots");
    reveal_strlit("cdots");
    lemma_symbol_renders("alpha"@);
    lemma_symbol_renders("beta"@);
    assert("gamma"@[0] != "alpha"@[0]);
    lemma_symbol_renders("gamma"@);
    assert("delta"@[0] != "alpha"@[0]);
    assert("delta"@[0] != "gamma"@[0]);
    lemma_symbol_renders("delta"@);
    lemma_symbol_renders("epsilon"@);
    assert("zeta"@[0] != "beta"@[0]);
    lemma_symbol_renders("zeta"@);
    lemma_symbol_renders("eta"@);
    assert("theta"@[0] != "alpha"@[0]);
    assert("theta"@[0] != "gamma"@[0]);
    assert("theta"@[0] != "delta"@[0]);
    lemma_symbol_renders("theta"@);
    assert("iota"@[0] != "beta"@[0]);
    assert("iota"@[0] != "zeta"@[0]);
    lemma_symbol_renders("iota"@);
    assert("kappa"@[0] != "alpha"@[0]);
    assert("kappa"@[0] != "gamma"@[0]);
    assert("kappa"@[0] != "delta"@[0]);
    assert("kappa"@[0] != "theta"@[0]);
    lemma_symbol_renders("kappa"@);
    lemma_symbol_renders("lambda"@);
    lemma_symbol_renders("mu"@);
    assert("nu"@[0] != "mu"@[0]);
    lemma_symbol_renders("nu"@);
}

proof fn lemma_glyphs_1()
    ensures
        spec_latex_to_unicode(seq!['\\'] + "xi"@) == seq!['\u{3be}'],
        spec_latex_to_unicode(seq!['\\'] + "omicron"@) == seq!['\u{3bf}'],
        spec_latex_to_unicode(seq!['\\'] + "pi"@) == seq!['\u{3c0}'],
        spec_latex_to_unicode(seq!['\\'] + "rho"@) == seq!['\u{3c1}'],
        spec_latex_to_unicode(seq!['\\'] + "sigma"@) == seq!['\u{3c3}'],
        spec_latex_to_unicode(seq!['\\'] + "tau"@) == seq!['\u{3c4}'],
        spec_latex_to_unicode(seq!['\\'] + "upsilon"@) == seq!['\u{3c5}'],
        spec_latex_to_unicode(seq!['\\'] + "phi"@) == seq!['\u{3c6}'],
        spec_latex_to_unicode(seq!['\\'] + "chi"@) == seq!['\u{3c7}'],
        spec_latex_to_unicode(seq!['\\'] + "psi"@) == seq!['\u{3c8}'],
        spec_latex_to_unicode(seq!['\\'] + "omega"@) == seq!['\u{3c9}'],
        spec_latex_to_unicode(seq!['\\'] + "Gamma"@) == seq!['\u{393}'],
        spec_latex_to_unicode(seq!['\\'] + "Delta"@) == seq!['\u{394}'],
{
    reveal_strlit("alpha");
    reveal_strlit("beta");
    reveal_strlit("gamma");
    reveal_strlit("delta");
    reveal_strlit("epsilon");
    reveal_strlit("zeta");
    reveal_strlit("eta");
    reveal_strlit("theta");
    reveal_strlit("iota");
    reveal_strlit("kappa");
    reveal_strlit("lambda");
    reveal_strlit("mu");
    reveal_strlit("nu");
    reveal_strlit("xi");
    reveal_strlit("omicron");
    reveal_strlit("pi");
    reveal_strlit("rho");
    reveal_strlit("sigma");
    reveal_strlit("tau");
    reveal_strlit("upsilon");
    reveal_strlit("phi");
    reveal_strlit("chi");
    reveal_strlit("psi");
    reveal_strlit("omega");
    reveal_strlit("Gamma");
    reveal_strlit("Delta");
    reveal_strlit("Theta");
    reveal_strlit("Lambda");
    reveal_strlit("Xi");
    reveal_strlit("Pi");
    reveal_strlit("Sigma");
    reveal_strlit("Phi");
    reveal_strlit("Psi");
    reveal_strlit("Omega");
    reveal_strlit("int");
    reveal_strlit("oint");
    reveal_strlit("sum");
    reveal_strlit("prod");
    reveal_strlit("infty");
    reveal_strlit("partial");
    reveal_strlit("nabla");
    reveal_strlit("prime");
    reveal_strlit("degree");
    reveal_strlit("cdot");
    reveal_strlit("times");
    reveal_strlit("div");
    reveal_strlit("pm");
    reveal_strlit("mp");
    reveal_strlit("approx");
    reveal_strlit("equiv");
    reveal_strlit("leq");
    reveal_strlit("le");
    reveal_strlit("geq");
    reveal_strlit("ge");
    reveal_strlit("neq");
    reveal_strlit("ne");
    reveal_strlit("in");
    reveal_strlit("notin");
    reveal_strlit("subset");
    reveal_strlit("subseteq");
    reveal_strlit("supset");
    reveal_strlit("cup");
    reveal_strlit("cap");
    reveal_strlit("land");
    reveal_strlit("lor");
    reveal_strlit("neg");
    reveal_strlit("forall");
    reveal_strlit("exists");
    reveal_strlit("to");
    reveal_strlit("rightarrow");
    reveal_strlit("leftarrow");
    reveal_strlit("leftrightarrow");
    reveal_strlit("Rightarrow");
    reveal_strlit("Leftarrow");
    reveal_strlit("dots");
    reveal_strlit("ldots");
    reveal_strlit("cdots");
    assert("xi"@[0] != "mu"@[0]);
    assert("xi"@[0] != "nu"@[0]);
    lemma_symbol_renders("xi"@);
    assert("omicron"@[0] != "epsilon"@[0]);
    lemma_symbol_renders("omicron"@);
    assert("pi"@[0] != "mu"@[0]);
    assert("pi"@[0] != "nu"@[0]);
    assert("pi"@[0] != "xi"@[0]);
    lemma_symbol_renders("pi"@);
    assert("rho"@[0] != "eta"@[0]);
    lemma_symbol_renders("rho"@);
    assert("sigma"@[0] != "alpha"@[0]);
    assert("sigma"@[0] != "gamma"@[0]);
    assert("sigma"@[0] != "delta"@[0]);
    assert("sigma"@[0] != "theta"@[0]);
    assert("sigma"@[0] != "kappa"@[0]);
    lemma_symbol_renders("sigma"@);
    assert("tau"@[0] != "eta"@[0]);
    assert("tau"@[0] != "rho"@[0]);
    lemma_symbol_renders("tau"@);
    assert("upsilon"@[0] != "epsilon"@[0]);
    assert("upsilon"@[0] != "omicron"@[0]);
    lemma_symbol_renders("upsilon"@);
    assert("phi"@[0] != "eta"@[0]);
    assert("phi"@[0] != "rho"@[0]);
    assert("phi"@[0] != "tau"@[0]);
    lemma_symbol_renders("phi"@);
    assert("chi"@[0] != "eta"@[0]);
    assert("chi"@[0] != "rho"@[0]);
    assert("chi"@[0] != "tau"@[0]);
    assert("chi"@[0] != "phi"@[0]);
    lemma_symbol_renders("chi"@);
    assert("psi"@[0] != "eta"@[0]);
    assert("psi"@[0] != "rho"@[0]);
    assert("psi"@[0] != "tau"@[0]);
    assert("psi"@[1] != "phi"@[1]);
    assert("psi"@[0] != "chi"@[0]);
    lemma_symbol_renders("psi"@);
    assert("omega"@[0] != "alpha"@[0]);
    assert("omega"@[0] != "gamma"@[0]);
    assert("omega"@[0] != "delta"@[0]);
    assert("omega"@[0] != "theta"@[0]);
    assert("omega"@[0] != "kappa"@[0]);
    assert("omega"@[0] != "sigma"@[0]);
    lemma_symbol_renders("omega"@);
    assert("Gamma"@[0] != "alpha"@[0]);
    assert("Gamma"@[0] != "gamma"@[0]);
    assert("Gamma"@[0] != "delta"@[0]);
    assert("Gamma"@[0] != "theta"@[0]);
    assert("Gamma"@[0] != "kappa"@[0]);
    assert("Gamma"@[0] != "sigma"@[0]);
    assert("Gamma"@[0] != "omega"@[0]);
    lemma_symbol_renders("Gamma"@);
    assert("Delta"@[0] != "alpha"@[0]);
    assert("Delta"@[0] != "gamma"@[0]);
    assert("Delta"@[0] != "delta"@[0]);
    assert("Delta"@[0] != "theta"@[0]);
    assert("Delta"@[0] != "kappa"@[0]);
    assert("Delta"@[0] != "sigma"@[0]);
    assert("Delta"@[0] != "omega"@[0]);
    assert("Delta"@[0] != "Gamma"@[0]);
    lemma_symbol_renders("Delta"@);
}

proof fn lemma_glyphs_2()
    ensures
        spec_latex_to_unicode(seq!['\\'] + "Theta"@) == seq!['\u{398}'],
        spec_latex_to_unicode(seq!['\\'] + "Lambda"@) == seq!['\u{39b}'],
        spec_latex_to_unicode(seq!['\\'] + "Xi"@) == seq!['\u{39e}'],
        spec_latex_to_unicode(seq!['\\'] + "Pi"@) == seq!['\u{3a0}'],
        spec_latex_to_unicode(seq!['\\'] + "Sigma"@) == seq!['\u{3a3}'],
        spec_latex_to_unicode(seq!['\\'] + "Phi"@) == seq!['\u{3a6}'],
        spec_latex_to_unicode(seq!['\\'] + "Psi"@) == seq!['\u{3a8}'],
        spec_latex_to_unicode(seq!['\\'] + "Omega"@) == seq!['\u{3a9}'],
        spec_latex_to_unicode(seq!['\\'] + "int"@) == seq!['\u{222b}'],
        spec_latex_to_unicode(seq!['\\'] + "oint"@) == seq!['\u{222e}'],
        spec_latex_to_unicode(seq!['\\'] + "sum"@) == seq!['\u{2211}'],
        spec_latex_to_unicode(seq!['\\'] + "prod"@) == seq!['\u{220f}'],
        spec_latex_to_unicode(seq!['\\'] + "infty"@) == seq!['\u{221e}'],
{
    reveal_strlit("alpha");
    reveal_strlit("beta");
    reveal_strlit("gamma");
    reveal_strlit("delta");
    reveal_strlit("epsilon");
    reveal_strlit("zeta");
    reveal_strlit("eta");
    reveal_strlit("theta");
    reveal_strlit("iota");
    reveal_strlit("kappa");
    reveal_strlit("lambda");
    reveal_strlit("mu");
    reveal_strlit("nu");
    reveal_strlit("xi");
    reveal_strlit("omicron");
    reveal_strlit("pi");
    reveal_strlit("rho");
    reveal_strlit("sigma");
    reveal_strlit("tau");
    reveal_strlit("upsilon");
    reveal_strlit("phi");
    reveal_strlit("chi");
    reveal_strlit("psi");
    reveal_strlit("omega");
    reveal_strlit("Gamma");
    reveal_strlit("Delta");
    reveal_strlit("Theta");
    reveal_strlit("Lambda");
    reveal_strlit("Xi");
    reveal_strlit("Pi");
    reveal_strlit("Sigma");
    reveal_strlit("Phi");
    reveal_strlit("Psi");
    reveal_strlit("Omega");
    reveal_strlit("int");
    reveal_strlit("oint");
    reveal_strlit("sum");
    reveal_strlit("prod");
    reveal_strlit("infty");
    reveal_strlit("partial");
    reveal_strlit("nabla");
    reveal_strlit("prime");
    reveal_strlit("degree");
    reveal_strlit("cdot");
    reveal_strlit("times");
    reveal_strlit("div");
    reveal_strlit("pm");
    reveal_strlit("mp");
    reveal_strlit("approx");
    reveal_strlit("equiv");
    reveal_strlit("leq");
    reveal_strlit("le");
    reveal_strlit("geq");
    reveal_strlit("ge");
    reveal_strlit("neq");
    reveal_strlit("ne");
    reveal_strlit("in");
    reveal_strlit("notin");
    reveal_strlit("subset");
    reveal_strlit("subseteq");
    reveal_strlit("supset");
    reveal_strlit("cup");
    reveal_strlit("cap");
    reveal_strlit("land");
    reveal_strlit("lor");
    reveal_strlit("neg");
    reveal_strlit("forall");
    reveal_strlit("exists");
    reveal_strlit("to");
    reveal_strlit("rightarrow");
    reveal_strlit("leftarrow");
    reveal_strlit("leftrightarrow");
    reveal_strlit("Rightarrow");
    reveal_strlit("Leftarrow");
    reveal_strlit("dots");
    reveal_strlit("ldots");
    reveal_strlit("cdots");
    assert("Theta"@[0] != "alpha"@[0]);
    assert("Theta"@[0] != "gamma"@[0]);
    assert("Theta"@[0] != "delta"@[0]);
    assert("Theta"@[0] != "theta"@[0]);
    assert("Theta"@[0] != "kappa"@[0]);
    assert("Theta"@[0] != "sigma"@[0]);
    assert("Theta"@[0] != "omega"@[0]);
    assert("Theta"@[0] != "Gamma"@[0]);
    assert("Theta"@[0] != "Delta"@[0]);
    lemma_symbol_renders("Theta"@);
    assert("Lambda"@[0] != "lambda"@[0]);
    lemma_symbol_renders("Lambda"@);
    assert("Xi"@[0] != "mu"@[0]);
    assert("Xi"@[0] != "nu"@[0]);
    assert("Xi"@[0] != "xi"@[0]);
    assert("Xi"@[0] != "pi"@[0]);
    lemma_symbol_renders("Xi"@);
    assert("Pi"@[0] != "mu"@[0]);
    assert("Pi"@[0] != "nu"@[0]);
    assert("Pi"@[0] != "xi"@[0]);
    assert("Pi"@[0] != "pi"@[0]);
    assert("Pi"@[0] != "Xi"@[0]);
    lemma_symbol_renders("Pi"@);
    assert("Sigma"@[0] != "alpha"@[0]);
    assert("Sigma"@[0] != "gamma"@[0]);
    assert("Sigma"@[0] != "delta"@[0]);
    assert("Sigma"@[0] != "theta"@[0]);
    assert("Sigma"@[0] != "kappa"@[0]);
    assert("Sigma"@[0] != "sigma"@[0]);
    assert("Sigma"@[0] != "omega"@[0]);
    assert("Sigma"@[0] != "Gamma"@[0]);
    assert("Sigma"@[0] != "Delta"@[0]);
    assert("Sigma"@[0] != "Theta"@[0]);
    lemma_symbol_renders("Sigma"@);
    assert("Phi"@[0] != "eta"@[0]);
    assert("Phi"@[0] != "rho"@[0]);
    assert("Phi"@[0] != "tau"@[0]);
    assert("Phi"@[0] != "phi"@[0]);
    assert("Phi"@[0] != "chi"@[0]);
    assert("Phi"@[0] != "psi"@[0]);
    lemma_symbol_renders("Phi"@);
    assert("Psi"@[0] != "eta"@[0]);
    assert("Psi"@[0] != "rho"@[0]);
    assert("Psi"@[0] != "tau"@[0]);
    assert("Psi"@[0] != "phi"@[0]);
    assert("Psi"@[0] != "chi"@[0]);
    assert("Psi"@[0] != "psi"@[0]);
    assert("Psi"@[1] != "Phi"@[1]);
    lemma_symbol_renders("Psi"@);
    assert("Omega"@[0] != "alpha"@[0]);
    assert("Omega"@[0] != "gamma"@[0]);
    assert("Omega"@[0] != "delta"@[0]);
    assert("Omega"@[0] != "theta"@[0]);
    assert("Omega"@[0] != "kappa"@[0]);
    assert("Omega"@[0] != "sigma"@[0]);
    assert("Omega"@[0] != "omega"@[0]);
    assert("Omega"@[0] != "Gamma"@[0]);
    assert("Omega"@[0] != "Delta"@[0]);
    assert("Omega"@[0] != "Theta"@[0]);
    assert("Omega"@[0] != "Sigma"@[0]);
    lemma_symbol_renders("Omega"@);
    assert("int"@[0] != "eta"@[0]);
    assert("int"@[0] != "rho"@[0]);
    assert("int"@[0] != "tau"@[0]);
    assert("int"@[0] != "phi"@[0]);
    assert("int"@[0] != "chi"@[0]);
    assert("int"@[0] != "psi"@[0]);
    assert("int"@[0] != "Phi"@[0]);
    assert("int"@[0] != "Psi"@[0]);
    lemma_symbol_renders("int"@);
    assert("oint"@[0] != "beta"@[0]);
    assert("oint"@[0] != "zeta"@[0]);
    assert("oint"@[0] != "iota"@[0]);
    lemma_symbol_renders("oint"@);
    assert("sum"@[0] != "eta"@[0]);
    assert("sum"@[0] != "rho"@[0]);
    assert("sum"@[0] != "tau"@[0]);
    assert("sum"@[0] != "phi"@[0]);
    assert("sum"@[0] != "chi"@[0]);
    assert("sum"@[0] != "psi"@[0]);
    assert("sum"@[0] != "Phi"@[0]);
    assert("sum"@[0] != "Psi"@[0]);
    assert("sum"@[0] != "int"@[0]);
    lemma_symbol_renders("sum"@);
    assert("prod"@[0] != "beta"@[0]);
    assert("prod"@[0] != "zeta"@[0]);
    assert("prod"@[0] != "iota"@[0]);
    assert("prod"@[0] != "oint"@[0]);
    lemma_symbol_renders("prod"@);
    assert("infty"@[0] != "alpha"@[0]);
    assert("infty"@[0] != "gamma"@[0]);
    assert("infty"@[0] != "delta"@[0]);
    assert("infty"@[0] != "theta"@[0]);
    assert("infty"@[0] != "kappa"@[0]);
    assert("infty"@[0] != "sigma"@[0]);
    assert("infty"@[0] != "omega"@[0]);
    assert("infty"@[0] != "Gamma"@[0]);
    assert("infty"@[0] != "Delta"@[0]);
    assert("infty"@[0] != "Theta"@[0]);
    assert("infty"@[0] != "Sigma"@[0]);
    assert("infty"@[0] != "Omega"@[0]);
    lemma_symbol_renders("infty"@);
}

proof fn lemma_glyphs_3()
    ensures
        spec_latex_to_unicode(seq!['\\'] + "partial"@) == seq!['\u{2202}'],
        spec_latex_to_unicode(seq!['\\'] + "nabla"@) == seq!['\u{2207}'],
        spec_latex_to_unicode(seq!['\\'] + "prime"@) == seq!['\u{2032}'],
        spec_latex_to_unicode(seq!['\\'] + "degree"@) == seq!['\u{b0}'],
        spec_latex_to_unicode(seq!['\\'] + "cdot"@) == seq!['\u{b7}'],
        spec_latex_to_unicode(seq!['\\'] + "times"@) == seq!['\u{d7}'],
        spec_latex_to_unicode(seq!['\\'] + "div"@) == seq!['\u{f7}'],
        spec_latex_to_unicode(seq!['\\'] + "pm"@) == seq!['\u{b1}'],
        spec_latex_to_unicode(seq!['\\'] + "mp"@) == seq!['\u{2213}'],
        spec_latex_to_unicode(seq!['\\'] + "approx"@) == seq!['\u{2248}'],
        spec_latex_to_unicode(seq!['\\'] + "equiv"@) == seq!['\u{2261}'],
        spec_latex_to_unicode(seq!['\\'] + "leq"@) == seq!['\u{2264}'],
        spec_latex_to_unicode(seq!['\\'] + "le"@) == seq!['\u{2264}'],
{
    reveal_strlit("alpha");
    reveal_strlit("beta");
    reveal_strlit("gamma");
    reveal_strlit("delta");
    reveal_strlit("epsilon");
    reveal_strlit("zeta");
    reveal_strlit("eta");
    reveal_strlit("theta");
    reveal_strlit("iota");
    reveal_strlit("kappa");
    reveal_strlit("lambda");
    reveal_strlit("mu");
    reveal_strlit("nu");
    reveal_strlit("xi");
    reveal_strlit("omicron");
    reveal_strlit("pi");
    reveal_strlit("rho");
    reveal_strlit("sigma");
    reveal_strlit("tau");
    reveal_strlit("upsilon");
    reveal_strlit("phi");
    reveal_strlit("chi");
    reveal_strlit("psi");
    reveal_strlit("omega");
    reveal_strlit("Gamma");
    reveal_strlit("Delta");
    reveal_strlit("Theta");
    reveal_strlit("Lambda");
    reveal_strlit("Xi");
    reveal_strlit("Pi");
    reveal_strlit("Sigma");
    reveal_strlit("Phi");
    reveal_strlit("Psi");
    reveal_strlit("Omega");
    reveal_strlit("int");
    reveal_strlit("oint");
    reveal_strlit("sum");
    reveal_strlit("prod");
    reveal_strlit("infty");
    reveal_strlit("partial");
    reveal_strlit("nabla");
    reveal_strlit("prime");
    reveal_strlit("degree");
    reveal_strlit("cdot");
    reveal_strlit("times");
    reveal_strlit("div");
    reveal_strlit("pm");
    reveal_strlit("mp");
    reveal_strlit("approx");
    reveal_strlit("equiv");
    reveal_strlit("leq");
    reveal_strlit("le");
    reveal_strlit("geq");
    reveal_strlit("ge");
    reveal_strlit("neq");
    reveal_strlit("ne");
    reveal_strlit("in");
    reveal_strlit("notin");
    reveal_strlit("subset");
    reveal_strlit("subseteq");
    reveal_strlit("supset");
    reveal_strlit("cup");
    reveal_strlit("cap");
    reveal_strlit("land");
    reveal_strlit("lor");
    reveal_strlit("neg");
    reveal_strlit("forall");
    reveal_strlit("exists");
    reveal_strlit("to");
    reveal_strlit("rightarrow");
    reveal_strlit("leftarrow");
    reveal_strlit("leftrightarrow");
    reveal_strlit("Rightarrow");
    reveal_strlit("Leftarrow");
    reveal_strlit("dots");
    reveal_strlit("ldots");
    reveal_strlit("cdots");
    assert("partial"@[0] != "epsilon"@[0]);
    assert("partial"@[0] != "omicron"@[0]);
    assert("partial"@[0] != "upsilon"@[0]);
    lemma_symbol_renders("partial"@);
    assert("nabla"@[0] != "alpha"@[0]);
    assert("nabla"@[0] != "gamma"@[0]);
    assert("nabla"@[0] != "delta"@[0]);
    assert("nabla"@[0] != "theta"@[0]);
    assert("nabla"@[0] != "kappa"@[0]);
    assert("nabla"@[0] != "sigma"@[0]);
    assert("nabla"@[0] != "omega"@[0]);
    assert("nabla"@[0] != "Gamma"@[0]);
    assert("nabla"@[0] != "Delta"@[0]);
    assert("nabla"@[0] != "Theta"@[0]);
    assert("nabla"@[0] != "Sigma"@[0]);
    assert("nabla"@[0] != "Omega"@[0]);
    assert("nabla"@[0] != "infty"@[0]);
    lemma_symbol_renders("nabla"@);
    assert("prime"@[0] != "alpha"@[0]);
    assert("prime"@[0] != "gamma"@[0]);
    assert("prime"@[0] != "delta"@[0]);
    assert("prime"@[0] != "theta"@[0]);
    assert("prime"@[0] != "kappa"@[0]);
    assert("prime"@[0] != "sigma"@[0]);
    assert("prime"@[0] != "omega"@[0]);
    assert("prime"@[0] != "Gamma"@[0]);
    assert("prime"@[0] != "Delta"@[0]);
    assert("prime"@[0] != "Theta"@[0]);
    assert("prime"@[0] != "Sigma"@[0]);
    assert("prime"@[0] != "Omega"@[0]);
    assert("prime"@[0] != "infty"@[0]);
    assert("prime"@[0] != "nabla"@[0]);
    lemma_symbol_renders("prime"@);
    assert("degree"@[0] != "lambda"@[0]);
    assert("degree"@[0] != "Lambda"@[0]);
    lemma_symbol_renders("degree"@);
    assert("cdot"@[0] != "beta"@[0]);
    assert("cdot"@[0] != "zeta"@[0]);
    assert("cdot"@[0] != "iota"@[0]);
    assert("cdot"@[0] != "oint"@[0]);
    assert("cdot"@[0] != "prod"@[0]);
    lemma_symbol_renders("cdot"@);
    assert("times"@[0] != "alpha"@[0]);
    assert("times"@[0] != "gamma"@[0]);
    assert("times"@[0] != "delta"@[0]);
    assert("times"@[1] != "theta"@[1]);
    assert("times"@[0] != "kappa"@[0]);
    assert("times"@[0] != "sigma"@[0]);
    assert("times"@[0] != "omega"@[0]);
    assert("times"@[0] != "Gamma"@[0]);
    assert("times"@[0] != "Delta"@[0]);
    assert("times"@[0] != "Theta"@[0]);
    assert("times"@[0] != "Sigma"@[0]);
    assert("times"@[0] != "Omega"@[0]);
    assert("times"@[0] != "infty"@[0]);
    assert("times"@[0] != "nabla"@[0]);
    assert("times"@[0] != "prime"@[0]);
    lemma_symbol_renders("times"@);
    assert("div"@[0] != "eta"@[0]);
    assert("div"@[0] != "rho"@[0]);
    assert("div"@[0] != "tau"@[0]);
    assert("div"@[0] != "phi"@[0]);
    assert("div"@[0] != "chi"@[0]);
    assert("div"@[0] != "psi"@[0]);
    assert("div"@[0] != "Phi"@[0]);
    assert("div"@[0] != "Psi"@[0]);
    assert("div"@[0] != "int"@[0]);
    assert("div"@[0] != "sum"@[0]);
    lemma_symbol_renders("div"@);
    assert("pm"@[0] != "mu"@[0]);
    assert("pm"@[0] != "nu"@[0]);
    assert("pm"@[0] != "xi"@[0]);
    assert("pm"@[1] != "pi"@[1]);
    assert("pm"@[0] != "Xi"@[0]);
    assert("pm"@[0] != "Pi"@[0]);
    lemma_symbol_renders("pm"@);
    assert("mp"@[1] != "mu"@[1]);
    assert("mp"@[0] != "nu"@[0]);
    assert("mp"@[0] != "xi"@[0]);
    assert("mp"@[0] != "pi"@[0]);
    assert("mp"@[0] != "Xi"@[0]);
    assert("mp"@[0] != "Pi"@[0]);
    assert("mp"@[0] != "pm"@[0]);
    lemma_symbol_renders("mp"@);
    assert("approx"@[0] != "lambda"@[0]);
    assert("approx"@[0] != "Lambda"@[0]);
    assert("approx"@[0] != "degree"@[0]);
    lemma_symbol_renders("approx"@);
    assert("equiv"@[0] != "alpha"@[0]);
    assert("equiv"@[0] != "gamma"@[0]);
    assert("equiv"@[0] != "delta"@[0]);
    assert("equiv"@[0] != "theta"@[0]);
    assert("equiv"@[0] != "kappa"@[0]);
    assert("equiv"@[0] != "sigma"@[0]);
    assert("equiv"@[0] != "omega"@[0]);
    assert("equiv"@[0] != "Gamma"@[0]);
    assert("equiv"@[0] != "Delta"@[0]);
    assert("equiv"@[0] != "Theta"@[0]);
    assert("equiv"@[0] != "Sigma"@[0]);
    assert("equiv"@[0] != "Omega"@[0]);
    assert("equiv"@[0] != "infty"@[0]);
    assert("equiv"@[0] != "nabla"@[0]);
    assert("equiv"@[0] != "prime"@[0]);
    assert("equiv"@[0] != "times"@[0]);
    lemma_symbol_renders("equiv"@);
    assert("leq"@[0] != "eta"@[0]);
    assert("leq"@[0] != "rho"@[0]);
    assert("leq"@[0] != "tau"@[0]);
    assert("leq"@[0] != "phi"@[0]);
    assert("leq"@[0] != "chi"@[0]);
    assert("leq"@[0] != "psi"@[0]);
    assert("leq"@[0] != "Phi"@[0]);
    assert("leq"@[0] != "Psi"@[0]);
    assert("leq"@[0] != "int"@[0]);
    assert("leq"@[0] != "sum"@[0]);
    assert("leq"@[0] != "div"@[0]);
    lemma_symbol_renders("leq"@);
    assert("le"@[0] != "mu"@[0]);
    assert("le"@[0] != "nu"@[0]);
    assert("le"@[0] != "xi"@[0]);
    assert("le"@[0] != "pi"@[0]);
    assert("le"@[0] != "Xi"@[0]);
    assert("le"@[0] != "Pi"@[0]);
    assert("le"@[0] != "pm"@[0]);
    assert("le"@[0] != "mp"@[0]);
    lemma_symbol_renders("le"@);
}

proof fn lemma_glyphs_4()
    ensures
        spec_latex_to_unicode(seq!['\\'] + "geq"@) == seq!['\u{2265}'],
        spec_latex_to_unicode(seq!['\\'] + "ge"@) == seq!['\u{2265}'],
        spec_latex_to_unicode(seq!['\\'] + "neq"@) == seq!['\u{2260}'],
        spec_latex_to_unicode(seq!['\\'] + "ne"@) == seq!['\u{2260}'],
        spec_latex_to_unicode(seq!['\\'] + "in"@) == seq!['\u{2208}'],
        spec_latex_to_unicode(seq!['\\'] + "notin"@) == seq!['\u{2209}'],
        spec_latex_to_unicode(seq!['\\'] + "subset"@) == seq!['\u{2282}'],
        spec_latex_to_unicode(seq!['\\'] + "subseteq"@) == seq!['\u{2286}'],
        spec_latex_to_unicode(seq!['\\'] + "supset"@) == seq!['\u{2283}'],
        spec_latex_to_unicode(seq!['\\'] + "cup"@) == seq!['\u{222a}'],
        spec_latex_to_unicode(seq!['\\'] + "cap"@) == seq!['\u{2229}'],
        spec_latex_to_unicode(seq!['\\'] + "land"@) == seq!['\u{2227}'],
        spec_latex_to_unicode(seq!['\\'] + "lor"@) == seq!['\u{2228}'],
{
    reveal_strlit("alpha");
    reveal_strlit("beta");
    reveal_strlit("gamma");
    reveal_strlit("delta");
    reveal_strlit("epsilon");
    reveal_strlit("zeta");
    reveal_strlit("eta");
    reveal_strlit("theta");
    reveal_strlit("iota");
    reveal_strlit("kappa");
    reveal_strlit("lambda");
    reveal_strlit("mu");
    reveal_strlit("nu");
    reveal_strlit("xi");
    reveal_strlit("omicron");
    reveal_strlit("pi");
    reveal_strlit("rho");
    reveal_strlit("sigma");
    reveal_strlit("tau");
    reveal_strlit("upsilon");
    reveal_strlit("phi");
    reveal_strlit("chi");
    reveal_strlit("psi");
    reveal_strlit("omega");
    reveal_strlit("Gamma");
    reveal_strlit("Delta");
    reveal_strlit("Theta");
    reveal_strlit("Lambda");
    reveal_strlit("Xi");
    reveal_strlit("Pi");
    reveal_strlit("Sigma");
    reveal_strlit("Phi");
    reveal_strlit("Psi");
    reveal_strlit("Omega");
    reveal_strlit("int");
    reveal_strlit("oint");
    reveal_strlit("sum");
    reveal_strlit("prod");
    reveal_strlit("infty");
    reveal_strlit("partial");
    reveal_strlit("nabla");
    reveal_strlit("prime");
    reveal_strlit("degree");
    reveal_strlit("cdot");
    reveal_strlit("times");
    reveal_strlit("div");
    reveal_strlit("pm");
    reveal_strlit("mp");
    reveal_strlit("approx");
    reveal_strlit("equiv");
    reveal_strlit("leq");
    reveal_strlit("le");
    reveal_strlit("geq");
    reveal_strlit("ge");
    reveal_strlit("neq");
    reveal_strlit("ne");
    reveal_strlit("in");
    reveal_strlit("notin");
    reveal_strlit("subset");
    reveal_strlit("subseteq");
    reveal_strlit("supset");
    reveal_strlit("cup");
    reveal_strlit("cap");
    reveal_strlit("land");
    reveal_strlit("lor");
    reveal_strlit("neg");
    reveal_strlit("forall");
    reveal_strlit("exists");
    reveal_strlit("to");
    reveal_strlit("rightarrow");
    reveal_strlit("leftarrow");
    reveal_strlit("leftrightarrow");
    reveal_strlit("Rightarrow");
    reveal_strlit("Leftarrow");
    reveal_strlit("dots");
    reveal_strlit("ldots");
    reveal_strlit("cdots");
    assert("geq"@[0] != "eta"@[0]);
    assert("geq"@[0] != "rho"@[0]);
    assert("geq"@[0] != "tau"@[0]);
    assert("geq"@[0] != "phi"@[0]);
    assert("geq"@[0] != "chi"@[0]);
    assert("geq"@[0] != "psi"@[0]);
    assert("geq"@[0] != "Phi"@[0]);
    assert("geq"@[0] != "Psi"@[0]);
    assert("geq"@[0] != "int"@[0]);
    assert("geq"@[0] != "sum"@[0]);
    assert("geq"@[0] != "div"@[0]);
    assert("geq"@[0] != "leq"@[0]);
    lemma_symbol_renders("geq"@);
    assert("ge"@[0] != "mu"@[0]);
    assert("ge"@[0] != "nu"@[0]);
    assert("ge"@[0] != "xi"@[0]);
    assert("ge"@[0] != "pi"@[0]);
    assert("ge"@[0] != "Xi"@[0]);
    assert("ge"@[0] != "Pi"@[0]);
    assert("ge"@[0] != "pm"@[0]);
    assert("ge"@[0] != "mp"@[0]);
    assert("ge"@[0] != "le"@[0]);
    lemma_symbol_renders("ge"@);
    assert("neq"@[0] != "eta"@[0]);
    assert("neq"@[0] != "rho"@[0]);
    assert("neq"@[0] != "tau"@[0]);
    assert("neq"@[0] != "phi"@[0]);
    assert("neq"@[0] != "chi"@[0]);
    assert("neq"@[0] != "psi"@[0]);
    assert("neq"@[0] != "Phi"@[0]);
    assert("neq"@[0] != "Psi"@[0]);
    assert("neq"@[0] != "int"@[0]);
    assert("neq"@[0] != "sum"@[0]);
    assert("neq"@[0] != "div"@[0]);
    assert("neq"@[0] != "leq"@[0]);
    assert("neq"@[0] != "geq"@[0]);
    lemma_symbol_renders("neq"@);
    assert("ne"@[0] != "mu"@[0]);
    assert("ne"@[1] != "nu"@[1]);
    assert("ne"@[0] != "xi"@[0]);
    assert("ne"@[0] != "pi"@[0]);
    assert("ne"@[0] != "Xi"@[0]);
    assert("ne"@[0] != "Pi"@[0]);
    assert("ne"@[0] != "pm"@[0]);
    assert("ne"@[0] != "mp"@[0]);
    assert("ne"@[0] != "le"@[0]);
    assert("ne"@[0] != "ge"@[0]);
    lemma_symbol_renders("ne"@);
    assert("in"@[0] != "mu"@[0]);
    assert("in"@[0] != "nu"@[0]);
    assert("in"@[0] != "xi"@[0]);
    assert("in"@[0] != "pi"@[0]);
    assert("in"@[0] != "Xi"@[0]);
    assert("in"@[0] != "Pi"@[0]);
    assert("in"@[0] != "pm"@[0]);
    assert("in"@[0] != "mp"@[0]);
    assert("in"@[0] != "le"@[0]);
    assert("in"@[0] != "ge"@[0]);
    assert("in"@[0] != "ne"@[0]);
    lemma_symbol_renders("in"@);
    assert("notin"@[0] != "alpha"@[0]);
    assert("notin"@[0] != "gamma"@[0]);
    assert("notin"@[0] != "delta"@[0]);
    assert("notin"@[0] != "theta"@[0]);
    assert("notin"@[0] != "kappa"@[0]);
    assert("notin"@[0] != "sigma"@[0]);
    assert("notin"@[0] != "omega"@[0]);
    assert("notin"@[0] != "Gamma"@[0]);
    assert("notin"@[0] != "Delta"@[0]);
    assert("notin"@[0] != "Theta"@[0]);
    assert("notin"@[0] != "Sigma"@[0]);
    assert("notin"@[0] != "Omega"@[0]);
    assert("notin"@[0] != "infty"@[0]);
    assert("notin"@[1] != "nabla"@[1]);
    assert("notin"@[0] != "prime"@[0]);
    assert("notin"@[0] != "times"@[0]);
    assert("notin"@[0] != "equiv"@[0]);
    lemma_symbol_renders("notin"@);
    assert("subset"@[0] != "lambda"@[0]);
    assert("subset"@[0] != "Lambda"@[0]);
    assert("subset"@[0] != "degree"@[0]);
    assert("subset"@[0] != "approx"@[0]);
    lemma_symbol_renders("subset"@);
    lemma_symbol_renders("subseteq"@);
    assert("supset"@[0] != "lambda"@[0]);
    assert("supset"@[0] != "Lambda"@[0]);
    assert("supset"@[0] != "degree"@[0]);
    assert("supset"@[0] != "approx"@[0]);
    assert("supset"@[2] != "subset"@[2]);
    lemma_symbol_renders("supset"@);
    assert("cup"@[0] != "eta"@[0]);
    assert("cup"@[0] != "rho"@[0]);
    assert("cup"@[0] != "tau"@[0]);
    assert("cup"@[0] != "phi"@[0]);
    assert("cup"@[1] != "chi"@[1]);
    assert("cup"@[0] != "psi"@[0]);
    assert("cup"@[0] != "Phi"@[0]);
    assert("cup"@[0] != "Psi"@[0]);
    assert("cup"@[0] != "int"@[0]);
    assert("cup"@[0] != "sum"@[0]);
    assert("cup"@[0] != "div"@[0]);
    assert("cup"@[0] != "leq"@[0]);
    assert("cup"@[0] != "geq"@[0]);
    assert("cup"@[0] != "neq"@[0]);
    lemma_symbol_renders("cup"@);
    assert("cap"@[0] != "eta"@[0]);
    assert("cap"@[0] != "rho"@[0]);
    assert("cap"@[0] != "tau"@[0]);
    assert("cap"@[0] != "phi"@[0]);
    assert("cap"@[1] != "chi"@[1]);
    assert("cap"@[0] != "psi"@[0]);
    assert("cap"@[0] != "Phi"@[0]);
    assert("cap"@[0] != "Psi"@[0]);
    assert("cap"@[0] != "int"@[0]);
    assert("cap"@[0] != "sum"@[0]);
    assert("cap"@[0] != "div"@[0]);
    assert("cap"@[0] != "leq"@[0]);
    assert("cap"@[0] != "geq"@[0]);
    assert("cap"@[0] != "neq"@[0]);
    assert("cap"@[1] != "cup"@[1]);
    lemma_symbol_renders("cap"@);
    assert("land"@[0] != "beta"@[0]);
    assert("land"@[0] != "zeta"@[0]);
    assert("land"@[0] != "iota"@[0]);
    assert("land"@[0] != "oint"@[0]);
    assert("land"@[0] != "prod"@[0]);
    assert("land"@[0] != "cdot"@[0]);
    lemma_symbol_renders("land"@);
    assert("lor"@[0] != "eta"@[0]);
    assert("lor"@[0] != "rho"@[0]);
    assert("lor"@[0] != "tau"@[0]);
    assert("lor"@[0] != "phi"@[0]);
    assert("lor"@[0] != "chi"@[0]);
    assert("lor"@[0] != "psi"@[0]);
    assert("lor"@[0] != "Phi"@[0]);
    assert("lor"@[0] != "Psi"@[0]);
    assert("lor"@[0] != "int"@[0]);
    assert("lor"@[0] != "sum"@[0]);
    assert("lor"@[0] != "div"@[0]);
    assert("lor"@[1] != "leq"@[1]);
    assert("lor"@[0] != "geq"@[0]);
    assert("lor"@[0] != "neq"@[0]);
    assert("lor"@[0] != "cup"@[0]);
    assert("lor"@[0] != "cap"@[0]);
    lemma_symbol_renders("lor"@);
}

proof fn lemma_glyphs_5()
    ensures
        spec_latex_to_unicode(seq!['\\'] + "neg"@) == seq!['\u{ac}'],
        spec_latex_to_unicode(seq!['\\'] + "forall"@) == seq!['\u{2200}'],
        spec_latex_to_unicode(seq!['\\'] + "exists"@) == seq!['\u{2203}'],
        spec_latex_to_unicode(seq!['\\'] + "to"@) == seq!['\u{2192}'],
        spec_latex_to_unicode(seq!['\\'] + "rightarrow"@) == seq!['\u{2192}'],
        spec_latex_to_unicode(seq!['\\'] + "leftarrow"@) == seq!['\u{2190}'],
        spec_latex_to_unicode(seq!['\\'] + "leftrightarrow"@) == seq!['\u{2194}'],
        spec_latex_to_unicode(seq!['\\'] + "Rightarrow"@) == seq!['\u{21d2}'],
        spec_latex_to_unicode(seq!['\\'] + "Leftarrow"@) == seq!['\u{21d0}'],
        spec_latex_to_unicode(seq!['\\'] + "dots"@) == seq!['\u{2026}'],
        spec_latex_to_unicode(seq!['\\'] + "ldots"@) == seq!['\u{2026}'],
        spec_latex_to_unicode(seq!['\\'] + "cdots"@) == seq!['\u{22ef}'],
{
    reveal_strlit("alpha");
    reveal_strlit("beta");
    reveal_strlit("gamma");
    reveal_strlit("delta");
    reveal_strlit("epsilon");
    reveal_strlit("zeta");
    reveal_strlit("eta");
    reveal_strlit("theta");
    reveal_strlit("iota");
    reveal_strlit("kappa");
    reveal_strlit("lambda");
    reveal_strlit("mu");
    reveal_strlit("nu");
    reveal_strlit("xi");
    reveal_strlit("omicron");
    reveal_strlit("pi");
    reveal_strlit("rho");
    reveal_strlit("sigma");
    reveal_strlit("tau");
    reveal_strlit("upsilon");
    reveal_strlit("phi");
    reveal_strlit("chi");
    reveal_strlit("psi");
    reveal_strlit("omega");
    reveal_strlit("Gamma");
    reveal_strlit("Delta");
    reveal_strlit("Theta");
    reveal_strlit("Lambda");
    reveal_strlit("Xi");
    reveal_strlit("Pi");
    reveal_strlit("Sigma");
    reveal_strlit("Phi");
    reveal_strlit("Psi");
    reveal_strlit("Omega");
    reveal_strlit("int");
    reveal_strlit("oint");
    reveal_strlit("sum");
    reveal_strlit("prod");
    reveal_strlit("infty");
    reveal_strlit("partial");
    reveal_strlit("nabla");
    reveal_strlit("prime");
    reveal_strlit("degree");
    reveal_strlit("cdot");
    reveal_strlit("times");
    reveal_strlit("div");
    reveal_strlit("pm");
    reveal_strlit("mp");
    reveal_strlit("approx");
    reveal_strlit("equiv");
    reveal_strlit("leq");
    reveal_strlit("le");
    reveal_strlit("geq");
    reveal_strlit("ge");
    reveal_strlit("neq");
    reveal_strlit("ne");
    reveal_strlit("in");
    reveal_strlit("notin");
    reveal_strlit("subset");
    reveal_strlit("subseteq");
    reveal_strlit("supset");
    reveal_strlit("cup");
    reveal_strlit("cap");
    reveal_strlit("land");
    reveal_strlit("lor");
    reveal_strlit("neg");
    reveal_strlit("forall");
    reveal_strlit("exists");
    reveal_strlit("to");
    reveal_strlit("rightarrow");
    reveal_strlit("leftarrow");
    reveal_strlit("leftrightarrow");
    reveal_strlit("Rightarrow");
    reveal_strlit("Leftarrow");
    reveal_strlit("dots");
    reveal_strlit("ldots");
    reveal_strlit("cdots");
    assert("neg"@[0] != "eta"@[0]);
    assert("neg"@[0] != "rho"@[0]);
    assert("neg"@[0] != "tau"@[0]);
    assert("neg"@[0] != "phi"@[0]);
    assert("neg"@[0] != "chi"@[0]);
    assert("neg"@[0] != "psi"@[0]);
    assert("neg"@[0] != "Phi"@[0]);
    assert("neg"@[0] != "Psi"@[0]);
    assert("neg"@[0] != "int"@[0]);
    assert("neg"@[0] != "sum"@[0]);
    assert("neg"@[0] != "div"@[0]);
    assert("neg"@[0] != "leq"@[0]);
    assert("neg"@[0] != "geq"@[0]);
    assert("neg"@[2] != "neq"@[2]);
    assert("neg"@[0] != "cup"@[0]);
    assert("neg"@[0] != "cap"@[0]);
    assert("neg"@[0] != "lor"@[0]);
    lemma_symbol_renders("neg"@);
    assert("forall"@[0] != "lambda"@[0]);
    assert("forall"@[0] != "Lambda"@[0]);
    assert("forall"@[0] != "degree"@[0]);
    assert("forall"@[0] != "approx"@[0]);
    assert("forall"@[0] != "subset"@[0]);
    assert("forall"@[0] != "supset"@[0]);
    lemma_symbol_renders("forall"@);
    assert("exists"@[0] != "lambda"@[0]);
    assert("exists"@[0] != "Lambda"@[0]);
    assert("exists"@[0] != "degree"@[0]);
    assert("exists"@[0] != "approx"@[0]);
    assert("exists"@[0] != "subset"@[0]);
    assert("exists"@[0] != "supset"@[0]);
    assert("exists"@[0] != "forall"@[0]);
    lemma_symbol_renders("exists"@);
    assert("to"@[0] != "mu"@[0]);
    assert("to"@[0] != "nu"@[0]);
    assert("to"@[0] != "xi"@[0]);
    assert("to"@[0] != "pi"@[0]);
    assert("to"@[0] != "Xi"@[0]);
    assert("to"@[0] != "Pi"@[0]);
    assert("to"@[0] != "pm"@[0]);
    assert("to"@[0] != "mp"@[0]);
    assert("to"@[0] != "le"@[0]);
    assert("to"@[0] != "ge"@[0]);
    assert("to"@[0] != "ne"@[0]);
    assert("to"@[0] != "in"@[0]);
    lemma_symbol_renders("to"@);
    lemma_symbol_renders("rightarrow"@);
    lemma_symbol_renders("leftarrow"@);
    lemma_symbol_renders("leftrightarrow"@);
    assert("Rightarrow"@[0] != "rightarrow"@[0]);
    lemma_symbol_renders("Rightarrow"@);
    assert("Leftarrow"@[0] != "leftarrow"@[0]);
    lemma_symbol_renders("Leftarrow"@);
    assert("dots"@[0] != "beta"@[0]);
    assert("dots"@[0] != "zeta"@[0]);
    assert("dots"@[0] != "iota"@[0]);
    assert("dots"@[0] != "oint"@[0]);
    assert("dots"@[0] != "prod"@[0]);
    assert("dots"@[0] != "cdot"@[0]);
    assert("dots"@[0] != "land"@[0]);
    lemma_symbol_renders("dots"@);
    assert("ldots"@[0] != "alpha"@[0]);
    assert("ldots"@[0] != "gamma"@[0]);
    assert("ldots"@[0] != "delta"@[0]);
    assert("ldots"@[0] != "theta"@[0]);
    assert("ldots"@[0] != "kappa"@[0]);
    assert("ldots"@[0] != "sigma"@[0]);
    assert("ldots"@[0] != "omega"@[0]);
    assert("ldots"@[0] != "Gamma"@[0]);
    assert("ldots"@[0] != "Delta"@[0]);
    assert("ldots"@[0] != "Theta"@[0]);
    assert("ldots"@[0] != "Sigma"@[0]);
    assert("ldots"@[0] != "Omega"@[0]);
    assert("ldots"@[0] != "infty"@[0]);
    assert("ldots"@[0] != "nabla"@[0]);
    assert("ldots"@[0] != "prime"@[0]);
    assert("ldots"@[0] != "times"@[0]);
    assert("ldots"@[0] != "equiv"@[0]);
    assert("ldots"@[0] != "notin"@[0]);
    lemma_symbol_renders("ldots"@);
    assert("cdots"@[0] != "alpha"@[0]);
    assert("cdots"@[0] != "gamma"@[0]);
    assert("cdots"@[0] != "delta"@[0]);
    assert("cdots"@[0] != "theta"@[0]);
    assert("cdots"@[0] != "kappa"@[0]);
    assert("cdots"@[0] != "sigma"@[0]);
    assert("cdots"@[0] != "omega"@[0]);
    assert("cdots"@[0] != "Gamma"@[0]);
    assert("cdots"@[0] != "Delta"@[0]);
    assert("cdots"@[0] != "Theta"@[0]);
    assert("cdots"@[0] != "Sigma"@[0]);
    assert("cdots"@[0] != "Omega"@[0]);
    assert("cdots"@[0] != "infty"@[0]);
    assert("cdots"@[0] != "nabla"@[0]);
    assert("cdots"@[0] != "prime"@[0]);
    assert("cdots"@[0] != "times"@[0]);
    assert("cdots"@[0] != "equiv"@[0]);
    assert("cdots"@[0] != "notin"@[0]);
    assert("cdots"@[0] != "ldots"@[0]);
    lemma_symbol_renders("cdots"@);
}

/// What each named command renders as, by itself: the Greek letters as
/// their lowercase and capital glyphs (`\alpha` as U+03B1 α, `\Omega` as
/// U+03A9 Ω), the big operators, and the relations and arrows each as its own
/// sign: `\leq` and `\le` as U+2264 ≤, `\geq` and `\ge` as U+2265 ≥,
/// `\neq` as U+2260 ≠, `\to` and `\rightarrow` as U+2192 →, and so on.
pub proof fn lemma_command_glyphs()
    ensures
        spec_latex_to_unicode(seq!['\\'] + "alpha"@) == seq!['\u{3b1}'],  // α
        spec_latex_to_unicode(seq!['\\'] + "beta"@) == seq!['\u{3b2}'],  // β
        spec_latex_to_unicode(seq!['\\'] + "gamma"@) == seq!['\u{3b3}'],  // γ
        spec_latex_to_unicode(seq!['\\'] + "delta"@) == seq!['\u{3b4}'],  // δ
        spec_latex_to_unicode(seq!['\\'] + "epsilon"@) == seq!['\u{3b5}'],  // ε
        spec_latex_to_unicode(seq!['\\'] + "zeta"@) == seq!['\u{3b6}'],  // ζ
        spec_latex_to_unicode(seq!['\\'] + "eta"@) == seq!['\u{3b7}'],  // η
        spec_latex_to_unicode(seq!['\\'] + "theta"@) == seq!['\u{3b8}'],  // θ
        spec_latex_to_unicode(seq!['\\'] + "iota"@) == seq!['\u{3b9}'],  // ι
        spec_latex_to_unicode(seq!['\\'] + "kappa"@) == seq!['\u{3ba}'],  // κ
        spec_latex_to_unicode(seq!['\\'] + "lambda"@) == seq!['\u{3bb}'],  // λ
        spec_latex_to_unicode(seq!['\\'] + "mu"@) == seq!['\u{3bc}'],  // μ
        spec_latex_to_unicode(seq!['\\'] + "nu"@) == seq!['\u{3bd}'],  // ν
        spec_latex_to_unicode(seq!['\\'] + "xi"@) == seq!['\u{3be}'],  // ξ
        spec_latex_to_unicode(seq!['\\'] + "omicron"@) == seq!['\u{3bf}'],  // ο
        spec_latex_to_unicode(seq!['\\'] + "pi"@) == seq!['\u{3c0}'],  // π
        spec_latex_to_unicode(seq!['\\'] + "rho"@) == seq!['\u{3c1}'],  // ρ
        spec_latex_to_unicode(seq!['\\'] + "sigma"@) == seq!['\u{3c3}'],  // σ
        spec_latex_to_unicode(seq!['\\'] + "tau"@) == seq!['\u{3c4}'],  // τ
        spec_latex_to_unicode(seq!['\\'] + "upsilon"@) == seq!['\u{3c5}'],  // υ
        spec_latex_to_unicode(seq!['\\'] + "phi"@) == seq!['\u{3c6}'],  // φ
        spec_latex_to_unicode(seq!['\\'] + "chi"@) == seq!['\u{3c7}'],  // χ
        spec_latex_to_unicode(seq!['\\'] + "psi"@) == seq!['\u{3c8}'],  // ψ
        spec_latex_to_unicode(seq!['\\'] + "omega"@) == seq!['\u{3c9}'],  // ω
        spec_latex_to_unicode(seq!['\\'] + "Gamma"@) == seq!['\u{393}'],  // Γ
        spec_latex_to_unicode(seq!['\\'] + "Delta"@) == seq!['\u{394}'],  // Δ
        spec_latex_to_unicode(seq!['\\'] + "Theta"@) == seq!['\u{398}'],  // Θ
        spec_latex_to_unicode(seq!['\\'] + "Lambda"@) == seq!['\u{39b}'],  // Λ
        spec_latex_to_unicode(seq!['\\'] + "Xi"@) == seq!['\u{39e}'],  // Ξ
        spec_latex_to_unicode(seq!['\\'] + "Pi"@) == seq!['\u{3a0}'],  // Π
        spec_latex_to_unicode(seq!['\\'] + "Sigma"@) == seq!['\u{3a3}'],  // Σ
        spec_latex_to_unicode(seq!['\\'] + "Phi"@) == seq!['\u{3a6}'],  // Φ
        spec_latex_to_unicode(seq!['\\'] + "Psi"@) == seq!['\u{3a8}'],  // Ψ
        spec_latex_to_unicode(seq!['\\'] + "Omega"@) == seq!['\u{3a9}'],  // Ω
        spec_latex_to_unicode(seq!['\\'] + "int"@) == seq!['\u{222b}'],  // ∫
        spec_latex_to_unicode(seq!['\\'] + "oint"@) == seq!['\u{222e}'],  // ∮
        spec_latex_to_unicode(seq!['\\'] + "sum"@) == seq!['\u{2211}'],  // ∑
        spec_latex_to_unicode(seq!['\\'] + "prod"@) == seq!['\u{220f}'],  // ∏
        spec_latex_to_unicode(seq!['\\'] + "infty"@) == seq!['\u{221e}'],  // ∞
        spec_latex_to_unicode(seq!['\\'] + "partial"@) == seq!['\u{2202}'],  // ∂
        spec_latex_to_unicode(seq!['\\'] + "nabla"@) == seq!['\u{2207}'],  // ∇
        spec_latex_to_unicode(seq!['\\'] + "prime"@) == seq!['\u{2032}'],  // ′
        spec_latex_to_unicode(seq!['\\'] + "degree"@) == seq!['\u{b0}'],  // °
        spec_latex_to_unicode(seq!['\\'] + "cdot"@) == seq!['\u{b7}'],  // ·
        spec_latex_to_unicode(seq!['\\'] + "times"@) == seq!['\u{d7}'],  // ×
        spec_latex_to_unicode(seq!['\\'] + "div"@) == seq!['\u{f7}'],  // ÷
        spec_latex_to_unicode(seq!['\\'] + "pm"@) == seq!['\u{b1}'],  // ±
        spec_latex_to_unicode(seq!['\\'] + "mp"@) == seq!['\u{2213}'],  // ∓
        spec_latex_to_unicode(seq!['\\'] + "approx"@) == seq!['\u{2248}'],  // ≈
        spec_latex_to_unicode(seq!['\\'] + "equiv"@) == seq!['\u{2261}'],  // ≡
        spec_latex_to_unicode(seq!['\\'] + "leq"@) == seq!['\u{2264}'],  // ≤
        spec_latex_to_unicode(seq!['\\'] + "le"@) == seq!['\u{2264}'],  // ≤
        spec_latex_to_unicode(seq!['\\'] + "geq"@) == seq!['\u{2265}'],  // ≥
        spec_latex_to_unicode(seq!['\\'] + "ge"@) == seq!['\u{2265}'],  // ≥
        spec_latex_to_unicode(seq!['\\'] + "neq"@) == seq!['\u{2260}'],  // ≠
        spec_latex_to_unicode(seq!['\\'] + "ne"@) == seq!['\u{2260}'],  // ≠
        spec_latex_to_unicode(seq!['\\'] + "in"@) == seq!['\u{2208}'],  // ∈
        spec_latex_to_unicode(seq!['\\'] + "notin"@) == seq!['\u{2209}'],  // ∉
        spec_latex_to_unicode(seq!['\\'] + "subset"@) == seq!['\u{2282}'],  // ⊂
        spec_latex_to_unicode(seq!['\\'] + "subseteq"@) == seq!['\u{2286}'],  // ⊆
        spec_latex_to_unicode(seq!['\\'] + "supset"@) == seq!['\u{2283}'],  // ⊃
        spec_latex_to_unicode(seq!['\\'] + "cup"@) == seq!['\u{222a}'],  // ∪
        spec_latex_to_unicode(seq!['\\'] + "cap"@) == seq!['\u{2229}'],  // ∩
        spec_latex_to_unicode(seq!['\\'] + "land"@) == seq!['\u{2227}'],  // ∧
        spec_latex_to_unicode(seq!['\\'] + "lor"@) == seq!['\u{2228}'],  // ∨
        spec_latex_to_unicode(seq!['\\'] + "neg"@) == seq!['\u{ac}'],  // ¬
        spec_latex_to_unicode(seq!['\\'] + "forall"@) == seq!['\u{2200}'],  // ∀
        spec_latex_to_unicode(seq!['\\'] + "exists"@) == seq!['\u{2203}'],  // ∃
        spec_latex_to_unicode(seq!['\\'] + "to"@) == seq!['\u{2192}'],  // →
        spec_latex_to_unicode(seq!['\\'] + "rightarrow"@) == seq!['\u{2192}'],  // →
        spec_latex_to_unicode(seq!['\\'] + "leftarrow"@) == seq!['\u{2190}'],  // ←
        spec_latex_to_unicode(seq!['\\'] + "leftrightarrow"@) == seq!['\u{2194}'],  // ↔
        spec_latex_to_unicode(seq!['\\'] + "Rightarrow"@) == seq!['\u{21d2}'],  // ⇒
        spec_latex_to_unicode(seq!['\\'] + "Leftarrow"@) == seq!['\u{21d0}'],  // ⇐
        spec_latex_to_unicode(seq!['\\'] + "dots"@) == seq!['\u{2026}'],  // …
        spec_latex_to_unicode(seq!['\\'] + "ldots"@) == seq!['\u{2026}'],  // …
        spec_latex_to_unicode(seq!['\\'] + "cdots"@) == seq!['\u{22ef}'],  // ⋯
{
    lemma_glyphs_0();
    lemma_glyphs_1();
    lemma_glyphs_2();
    lemma_glyphs_3();
    lemma_glyphs_4();
    lemma_glyphs_5();
}

proof fn lemma_alpha_run(s: Seq<char>, i: int)
    requires
        1 <= i <= s.len(),
        forall|k: int| 1 <= k < s.len() ==> is_ascii_alpha(#[trigger] s[k]),
    ensures
        alpha_end(s, i) == s.len(),
    decreases s.len() - i,
{
    if i < s.len() {
        lemma_alpha_run(s, i + 1);
    }
}

} // verus!
