use std::path::Path;

use ctf_man::templates::{default_template_paths, get_template_path, templates_dir};

#[test]
fn test_get_template_path() {
    let base_path = "/home/user/ctf";
    let category = "pwn";

    let template_path = get_template_path(base_path, category);

    assert_eq!(Path::new(&template_path), Path::new("/home/user/ctf/templates/pwn"));
}

#[test]
fn templates_dir_is_inside_the_base() {
    assert_eq!(Path::new(&templates_dir("/base")), Path::new("/base/templates"));
}

#[test]
fn default_template_paths_cover_the_four_categories() {
    let paths = default_template_paths("/b");
    let expected = ["/b/templates/pwn", "/b/templates/crypto", "/b/templates/web", "/b/templates/rev"];
    assert_eq!(paths.len(), 4);
    for (p, e) in paths.iter().zip(expected.iter()) {
        assert_eq!(Path::new(p), Path::new(e));
    }
}
