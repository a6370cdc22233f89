use pixi_pty::editors::executable_of;
use pixi_pty::editors::filter_by_mask;
use pixi_pty::editors::installable_editors;
use pixi_pty::editors::known_system_editors;
use pixi_pty::editors::not_in;

#[test]
fn executable_is_the_first_word() {
    assert_eq!(executable_of("code ."), "code");
    assert_eq!(executable_of("jupyter lab"), "jupyter");
    assert_eq!(executable_of("spyder -p ."), "spyder");
    assert_eq!(executable_of("  indented cmd"), "indented");
    assert_eq!(executable_of("single"), "single");
    assert_eq!(executable_of(""), "");
    assert_eq!(executable_of("   "), "");
}

#[test]
fn catalogue_shape() {
    let system = known_system_editors();
    assert_eq!(system.len(), 8);
    assert!(system.iter().all(|e| e.package_name.is_none()));
    assert_eq!(system[0].name, "Visual Studio Code");
    let installable = installable_editors();
    assert_eq!(installable.len(), 2);
    assert_eq!(installable[0].package_name, Some("jupyter"));
    assert_eq!(installable[1].package_name, Some("spyder"));
}

#[test]
fn mask_selects_present_editors_in_order() {
    let editors = known_system_editors();
    let mut present = vec![false; editors.len()];
    present[1] = true;
    present[4] = true;
    let selected = filter_by_mask(&editors, &present);
    assert_eq!(selected.len(), 2);
    assert_eq!(selected[0].name, "Cursor");
    assert_eq!(selected[1].name, "PyCharm");
}

#[test]
fn installable_excludes_already_available() {
    let installable = installable_editors();
    // Jupyter is already available in the environment.
    let available = vec![installable[0]];
    let remaining = not_in(&installable, &available);
    assert_eq!(remaining.len(), 1);
    assert_eq!(remaining[0].name, "Spyder");
    // Nothing available yet: everything is installable.
    let all = not_in(&installable, &Vec::new());
    assert_eq!(all.len(), 2);
}
