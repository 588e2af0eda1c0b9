use cadsd::choices::backend_index;
use cadsd::choices::backend_named;
use cadsd::choices::style_code;
use cadsd::choices::style_name;
use cadsd::choices::theme_index;
use cadsd::choices::theme_named;

#[test]
fn bore_styles_are_stored_as_codes() {
    assert_eq!(style_code("Cone"), 0);
    assert_eq!(style_code("Kigali"), 1);
    assert_eq!(style_code("Mbeya"), 2);
    assert_eq!(style_code("Custom"), 0);
    assert_eq!(style_name(0), "Cone");
    assert_eq!(style_name(1), "Kigali");
    assert_eq!(style_name(2), "Mbeya");
    assert_eq!(style_name(7), "Cone");
    for name in ["Cone", "Kigali", "Mbeya"] {
        assert_eq!(style_name(style_code(name)), name);
    }
}

#[test]
fn theme_menu_entries_name_themes() {
    assert_eq!(theme_named(0), Some("dark"));
    assert_eq!(theme_named(1), Some("light"));
    assert_eq!(theme_named(2), Some("auto"));
    assert_eq!(theme_named(3), None);
    assert_eq!(theme_index("dark"), 0);
    assert_eq!(theme_index("light"), 1);
    assert_eq!(theme_index("auto"), 2);
    assert_eq!(theme_index("sepia"), 0);
    for i in 0..3 {
        assert_eq!(theme_index(theme_named(i).unwrap()), i);
    }
}

#[test]
fn backend_menu_entries_name_backends() {
    assert_eq!(backend_named(0), Some("tlm_python"));
    assert_eq!(backend_named(1), Some("waveguide"));
    assert_eq!(backend_named(2), Some("complex_impedance"));
    assert_eq!(backend_named(9), None);
    assert_eq!(backend_index("waveguide"), 1);
    assert_eq!(backend_index("complex_impedance"), 2);
    assert_eq!(backend_index("tlm"), 0);
    for i in 0..3 {
        assert_eq!(backend_index(backend_named(i).unwrap()), i);
    }
}
