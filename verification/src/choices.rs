//! The names that the editor's numbered choices stand for: the bore style
//! stored in a project, and the entries of the theme and simulation-backend
//! menus of the preferences.

use vstd::prelude::*;
use crate::text::same_text;

verus! {

/// The code a bore style name is stored as: `Kigali` 1, `Mbeya` 2, any
/// other name (`Cone` among them) 0.
pub open spec fn style_code_spec(name: Seq<char>) -> u32 {
    if name == "Kigali"@ {
        1
    } else if name == "Mbeya"@ {
        2
    } else {
        0
    }
}

/// The bore style name a stored code stands for: 1 `Kigali`, 2 `Mbeya`, any
/// other code `Cone`.
pub open spec fn style_name_spec(code: u32) -> Seq<char> {
    if code == 1 {
        "Kigali"@
    } else if code == 2 {
        "Mbeya"@
    } else {
        "Cone"@
    }
}

/// The entry of the theme menu that shows a theme: `light` 1, `auto` 2, any
/// other theme (`dark` among them) 0.
pub open spec fn theme_index_spec(theme: Seq<char>) -> usize {
    if theme == "light"@ {
        1
    } else if theme == "auto"@ {
        2
    } else {
        0
    }
}

/// The theme an entry of the theme menu selects; entries past the third
/// select none.
pub open spec fn theme_named_spec(index: usize) -> Option<Seq<char>> {
    if index == 0 {
        Some("dark"@)
    } else if index == 1 {
        Some("light"@)
    } else if index == 2 {
        Some("auto"@)
    } else {
        None
    }
}

/// The entry of the backend menu that shows a simulation backend:
/// `waveguide` 1, `complex_impedance` 2, any other backend 0.
pub open spec fn backend_index_spec(backend: Seq<char>) -> usize {
    if backend == "waveguide"@ {
        1
    } else if backend == "complex_impedance"@ {
        2
    } else {
        0
    }
}

/// The simulation backend an entry of the backend menu selects; entries past
/// the third select none.
pub open spec fn backend_named_spec(index: usize) -> Option<Seq<char>> {
    if index == 0 {
        Some("tlm_python"@)
    } else if index == 1 {
        Some("waveguide"@)
    } else if index == 2 {
        Some("complex_impedance"@)
    } else {
        None
    }
}

/// `r` holds the text `s` holds, or both hold none.
pub open spec fn same_choice(r: Option<&str>, s: Option<Seq<char>>) -> bool {
    match (r, s) {
        (Some(a), Some(b)) => a@ == b,
        (None, None) => true,
        _ => false,
    }
}

/// The code a bore style name is stored as in a project.
pub fn style_code(name: &str) -> (r: u32)
    ensures
        r == style_code_spec(name@),
{
    if same_text(name, "Kigali") {
        1
    } else if same_text(name, "Mbeya") {
        2
    } else {
        0
    }
}

/// The bore style name a code stored in a project stands for.
pub fn style_name(code: u32) -> (r: &'static str)
    ensures
        r@ == style_name_spec(code),
{
    if code == 1 {
        "Kigali"
    } else if code == 2 {
        "Mbeya"
    } else {
        "Cone"
    }
}

/// The entry of the theme menu that shows `theme`.
pub fn theme_index(theme: &str) -> (r: usize)
    ensures
        r == theme_index_spec(theme@),
{
    if same_text(theme, "light") {
        1
    } else if same_text(theme, "auto") {
        2
    } else {
        0
    }
}

/// The theme the theme menu's entry `index` selects.
pub fn theme_named(index: usize) -> (r: Option<&'static str>)
    ensures
        same_choice(r, theme_named_spec(index)),
{
    if index == 0 {
        Some("dark")
    } else if index == 1 {
        Some("light")
    } else if index == 2 {
        Some("auto")
    } else {
        None
    }
}

/// The entry of the backend menu that shows `backend`.
pub fn backend_index(backend: &str) -> (r: usize)
    ensures
        r == backend_index_spec(backend@),
{
    if same_text(backend, "waveguide") {
        1
    } else if same_text(backend, "complex_impedance") {
        2
    } else {
        0
    }
}

/// The simulation backend the backend menu's entry `index` selects.
pub fn backend_named(index: usize) -> (r: Option<&'static str>)
    ensures
        same_choice(r, backend_named_spec(index)),
{
    if index == 0 {
        Some("tlm_python")
    } else if index == 1 {
        Some("waveguide")
    } else if index == 2 {
        Some("complex_impedance")
    } else {
        None
    }
}

/// Storing a bore style and reading it back gives the same style, for each
/// of the three styles; and each code below 3 reads back to itself.
pub proof fn lemma_style_round_trip(code: u32)
    requires
        code < 3,
    ensures
        style_code_spec(style_name_spec(code)) == code,
{
    reveal_strlit("Kigali");
    reveal_strlit("Mbeya");
    reveal_strlit("Cone");
    assert("Cone"@.len() != "Kigali"@.len());
    assert("Cone"@.len() != "Mbeya"@.len());
    assert("Mbeya"@.len() != "Kigali"@.len());
}

/// A style name read back from its stored code is the name itself, for the
/// three style names.
pub proof fn lemma_style_name_round_trip(name: Seq<char>)
    requires
        name == "Cone"@ || name == "Kigali"@ || name == "Mbeya"@,
    ensures
        style_name_spec(style_code_spec(name)) == name,
{
    reveal_strlit("Kigali");
    reveal_strlit("Mbeya");
    reveal_strlit("Cone");
}

/// The theme menu shows, at the entry of a theme it selected, that theme.
pub proof fn lemma_theme_round_trip(index: usize)
    requires
        index < 3,
    ensures
        theme_named_spec(index) matches Some(t) && theme_index_spec(t) == index,
{
    reveal_strlit("dark");
    reveal_strlit("light");
    reveal_strlit("auto");
    assert("dark"@[0] != "light"@[0]);
    assert("dark"@[0] != "auto"@[0]);
    assert("light"@[0] != "auto"@[0]);
}

/// The backend menu shows, at the entry of a backend it selected, that
/// backend.
pub proof fn lemma_backend_round_trip(index: usize)
    requires
        index < 3,
    ensures
        backend_named_spec(index) matches Some(b) && backend_index_spec(b) == index,
{
    reveal_strlit("tlm_python");
    reveal_strlit("waveguide");
    reveal_strlit("complex_impedance");
    assert("tlm_python"@[0] != "waveguide"@[0]);
    assert("tlm_python"@[0] != "complex_impedance"@[0]);
    assert("waveguide"@[0] != "complex_impedance"@[0]);
}

} // verus!
