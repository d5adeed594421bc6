//! Theme names: the cycle order and the aliases a configured name may use.

use vstd::prelude::*;
use vstd::string::StringExecFns;
use crate::text::{lower_of, lowercase};

verus! {

/// Number of themes in the cycle.
pub const THEME_COUNT: usize = 11;

/// The theme names in cycle order.
pub open spec fn theme_list() -> Seq<Seq<char>> {
    seq![
        "default"@,
        "kawaii"@,
        "cyber"@,
        "dracula"@,
        "monochrome"@,
        "matrix"@,
        "nord"@,
        "gruvbox"@,
        "catppuccin"@,
        "tokyo_night"@,
        "solarized"@,
    ]
}

/// The theme a lower-cased name selects; unknown names select the default.
pub open spec fn theme_for(lower: Seq<char>) -> Seq<char> {
    if lower == "kawaii"@ {
        "kawaii"@
    } else if lower == "cyber"@ || lower == "futuristic"@ {
        "cyber"@
    } else if lower == "monochrome"@ || lower == "mono"@ {
        "monochrome"@
    } else if lower == "dracula"@ {
        "dracula"@
    } else if lower == "matrix"@ || lower == "hacker"@ {
        "matrix"@
    } else if lower == "nord"@ {
        "nord"@
    } else if lower == "gruvbox"@ {
        "gruvbox"@
    } else if lower == "catppuccin"@ || lower == "mocha"@ {
        "catppuccin"@
    } else if lower == "tokyo_night"@ || lower == "tokyo"@ || lower == "tokyonight"@ {
        "tokyo_night"@
    } else if lower == "solarized"@ {
        "solarized"@
    } else {
        "default"@
    }
}

/// The theme name at position `i` of the cycle.
pub fn theme_name_at(i: usize) -> (r: &'static str)
    requires
        i < THEME_COUNT,
    ensures
        r@ == theme_list()[i as int],
{
    if i == 0 {
        "default"
    } else if i == 1 {
        "kawaii"
    } else if i == 2 {
        "cyber"
    } else if i == 3 {
        "dracula"
    } else if i == 4 {
        "monochrome"
    } else if i == 5 {
        "matrix"
    } else if i == 6 {
        "nord"
    } else if i == 7 {
        "gruvbox"
    } else if i == 8 {
        "catppuccin"
    } else if i == 9 {
        "tokyo_night"
    } else {
        "solarized"
    }
}

fn is(s: &String, lit: &str) -> (r: bool)
    ensures
        r == (s@ == lit@),
{
    *s == String::from_str(lit)
}

/// The canonical name of the theme that `name` selects, in any letter case.
pub fn canonical_theme_name(name: &str) -> (r: &'static str)
    ensures
        r@ == theme_for(lower_of(name@)),
{
    let l = lowercase(name);
    if is(&l, "kawaii") {
        "kawaii"
    } else if is(&l, "cyber") || is(&l, "futuristic") {
        "cyber"
    } else if is(&l, "monochrome") || is(&l, "mono") {
        "monochrome"
    } else if is(&l, "dracula") {
        "dracula"
    } else if is(&l, "matrix") || is(&l, "hacker") {
        "matrix"
    } else if is(&l, "nord") {
        "nord"
    } else if is(&l, "gruvbox") {
        "gruvbox"
    } else if is(&l, "catppuccin") || is(&l, "mocha") {
        "catppuccin"
    } else if is(&l, "tokyo_night") || is(&l, "tokyo") || is(&l, "tokyonight") {
        "tokyo_night"
    } else if is(&l, "solarized") {
        "solarized"
    } else {
        "default"
    }
}

/// The first position at or after `i` of `name` in the cycle, or `THEME_COUNT`.
pub open spec fn theme_position_from(name: Seq<char>, i: nat) -> nat
    decreases THEME_COUNT - i,
{
    if i >= THEME_COUNT {
        THEME_COUNT as nat
    } else if theme_list()[i as int] == name {
        i
    } else {
        theme_position_from(name, i + 1)
    }
}

/// The theme after `name` in the cycle; after an unknown name, the one after the first.
pub open spec fn theme_after(name: Seq<char>) -> Seq<char> {
    let p = theme_position_from(name, 0);
    let i = if p < THEME_COUNT {
        p
    } else {
        0
    };
    theme_list()[((i + 1) % (THEME_COUNT as nat)) as int]
}

/// The theme after `name` in the cycle.
pub fn next_theme_name(name: &String) -> (r: &'static str)
    ensures
        r@ == theme_after(name@),
{
    let mut i: usize = 0;
    while i < THEME_COUNT
        invariant
            i <= THEME_COUNT,
            theme_position_from(name@, 0) == theme_position_from(name@, i as nat),
        decreases THEME_COUNT - i,
    {
        if is(name, theme_name_at(i)) {
            return theme_name_at((i + 1) % THEME_COUNT);
        }
        i += 1;
    }
    theme_name_at(1)
}

} // verus!
