//! Styled characters. The style of a character is a value of `nu_ansi_term`
//! that this library compares and asks for its control code, and never looks
//! into.

use vstd::prelude::*;
use vstd::std_specs::cmp::PartialEqSpecImpl;
use vstd::std_specs::convert::FromSpecImpl;
use nu_ansi_term::Style;

verus! {

/// `nu_ansi_term::Style`, carried through as an opaque value.
#[verifier::external_type_specification]
#[verifier::external_body]
pub struct ExStyle(nu_ansi_term::Style);

/// Whether a style is the one that `Style::default` returns: the style with
/// no property set.
pub uninterp spec fn style_is_default(style: Style) -> bool;

/// The text that `Style::prefix` displays for a style: the control code that
/// switches a terminal to it.
pub uninterp spec fn style_prefix(style: Style) -> Seq<char>;

/// The style that `Style::reset_before_style` returns for a style: the same
/// one, marked to be preceded by a reset code.
pub uninterp spec fn style_reset_before(style: Style) -> Style;

/// The style with no property set.
pub open spec fn plain() -> Style {
    choose|s: Style| style_is_default(s)
}

/// The default style: the plain style, marked to be preceded by a reset. It
/// is the style of a character that was given without one, and the style
/// that is active after a reset.
pub open spec fn plain_reset() -> Style {
    style_reset_before(plain())
}

/// Calls `Style::default`. The contract claims that the call always returns
/// the same style, the only one that `style_is_default` holds of.
#[verifier::external_body]
pub(crate) fn default_style() -> (r: Style)
    ensures
        forall|s: Style| #[trigger] style_is_default(s) <==> s == r,
{
    Style::default()
}

/// Calls `==` of `Style`, which `nu_ansi_term` derives. The contract claims
/// that it holds of two styles exactly when they are the same value.
#[verifier::external_body]
pub(crate) fn same_style(a: &Style, b: &Style) -> (r: bool)
    ensures
        r == (*a == *b),
{
    a == b
}

/// Calls `Style::prefix` and takes the text that the result displays. The
/// contract only names that text.
#[verifier::external_body]
pub(crate) fn prefix_of(style: Style) -> (r: String)
    ensures
        r@ == style_prefix(style),
{
    style.prefix().to_string()
}

/// Calls `Style::reset_before_style`. The contract only names the result.
#[verifier::external_body]
pub(crate) fn reset_before(style: Style) -> (r: Style)
    ensures
        r == style_reset_before(style),
{
    style.reset_before_style()
}

/// The style with no property set.
pub fn plain_style() -> (r: Style)
    ensures
        r == plain(),
{
    let r = default_style();
    proof {
        assert(style_is_default(r));
        assert(style_is_default(plain()));
    }
    r
}

/// The default style.
pub fn plain_reset_style() -> (r: Style)
    ensures
        r == plain_reset(),
{
    reset_before(plain_style())
}

/// A character with its style.
#[derive(Clone, Copy, Eq, Debug)]
pub struct AnsiChar(pub char, pub Style);

impl PartialEq for AnsiChar {
    /// Two styled characters are equal where both the character and the
    /// style are.
    fn eq(&self, other: &Self) -> (r: bool) {
        self.0 == other.0 && same_style(&self.1, &other.1)
    }
}

impl PartialEqSpecImpl for AnsiChar {
    open spec fn obeys_eq_spec() -> bool {
        true
    }

    open spec fn eq_spec(&self, other: &Self) -> bool {
        self.0 == other.0 && self.1 == other.1
    }
}

impl From<char> for AnsiChar {
    /// A character given without a style gets the default style.
    fn from(value: char) -> (r: Self) {
        AnsiChar(value, plain_reset_style())
    }
}

impl FromSpecImpl<char> for AnsiChar {
    open spec fn obeys_from_spec() -> bool {
        true
    }

    open spec fn from_spec(value: char) -> Self {
        AnsiChar(value, plain_reset())
    }
}

} // verus!
