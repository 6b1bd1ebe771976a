use inkwave::desc::{get_desc, get_desc_mfg_code};

fn mfg_codes() -> Vec<(u8, &'static str)> {
    vec![
        (51, "ED060SCF (V220 6\" Tequila)"),
        (56, "ED060SCG (V220 Whitney)"),
        (163, "LB060S03-RD02 (LGD Tequila Line 1)"),
        (202, "reMarkable panel?"),
    ]
}

#[test]
fn get_desc_finds_known_keys() {
    let table = vec![(0u8, "Standard"), (3, "Improved temperature range")];
    assert_eq!(get_desc(&table, 3, None), "Improved temperature range");
    assert_eq!(get_desc(&table, 0, Some("fallback")), "Standard");
}

#[test]
fn get_desc_falls_back() {
    let table = vec![(0u8, "Standard")];
    assert_eq!(get_desc(&table, 9, Some("Unknown mode")), "Unknown mode");
    assert_eq!(get_desc(&table, 9, None), "Unknown");
}

#[test]
fn mfg_code_lookup_prefers_the_table() {
    let t = mfg_codes();
    assert_eq!(get_desc_mfg_code(&t, 202), "reMarkable panel?");
    assert_eq!(get_desc_mfg_code(&t, 56), "ED060SCG (V220 Whitney)");
}

#[test]
fn mfg_code_ranges_name_the_panel_family() {
    let t = mfg_codes();
    assert_eq!(get_desc_mfg_code(&t, 57), "PVI/EIH panel ");
    assert_eq!(get_desc_mfg_code(&t, 165), "LGD panel ");
    assert_eq!(get_desc_mfg_code(&t, 42), "Unknown code ");
}
