use cook::ordered_map::OrderedMap;
use cook::pkg_config::{expand_pkg_config_value, parse_pkg_config_link_metadata};

fn strings(items: &[&str]) -> Vec<String> {
    items.iter().map(|s| s.to_string()).collect()
}

fn vars(items: &[(&str, &str)]) -> OrderedMap<String> {
    let mut map = OrderedMap::new();
    for (k, v) in items {
        map.insert(k.to_string(), v.to_string());
    }
    map
}

#[test]
fn variables_are_expanded_inside_variables() {
    let v = vars(&[("prefix", "/usr"), ("libdir", "${prefix}/lib")]);
    assert_eq!(
        expand_pkg_config_value("-L${libdir} ${missing}x", &v, 0),
        Some("-L/usr/lib x".to_string())
    );
}

#[test]
fn text_without_references_is_its_own_expansion() {
    let v = vars(&[("a", "1")]);
    assert_eq!(expand_pkg_config_value("plain $a {a}", &v, 0), Some("plain $a {a}".to_string()));
    assert_eq!(expand_pkg_config_value("open ${a", &v, 0), Some("open ${a".to_string()));
    let once = expand_pkg_config_value("x${a}y", &v, 0).unwrap();
    assert_eq!(expand_pkg_config_value(&once, &v, 0), Some(once.clone()));
}

#[test]
fn the_deepest_level_is_left_alone() {
    let v = vars(&[("a", "1")]);
    assert_eq!(expand_pkg_config_value("${a}", &v, 8), Some("${a}".to_string()));
    assert_eq!(expand_pkg_config_value("${a}", &v, 7), Some("1".to_string()));
}

#[test]
fn a_reference_can_be_put_together() {
    let v = vars(&[("d", "$"), ("x", "ok")]);
    assert_eq!(expand_pkg_config_value("${d}{x}", &v, 0), Some("ok".to_string()));
}

#[test]
fn link_flags_are_gathered() {
    let content = "# comment
prefix=/opt/x
libdir = ${prefix}/lib

Name: demo
Libs: -L${libdir} -L \"/other dir\" -ldemo -l m -pthread
Libs.private: -lm -ldl /abs/libz.a plain -framework -ldemo
";
    let m = parse_pkg_config_link_metadata(content).unwrap();
    assert_eq!(m.lib_dirs, strings(&["/opt/x/lib", "/other"]));
    assert_eq!(
        m.libs,
        strings(&["demo", "m", "-pthread", "dl", "/abs/libz.a", "-framework"])
    );
}

#[test]
fn a_colon_or_blank_in_front_of_an_equals_sign_is_no_variable() {
    let m = parse_pkg_config_link_metadata("Libs: -Da=b -lx\nsome key=1\n").unwrap();
    assert_eq!(m.libs, strings(&["-Da=b", "x"]));
}

#[test]
fn the_last_definition_counts_even_if_it_comes_later() {
    let m = parse_pkg_config_link_metadata("Libs: -L${d}\nd=/one\r\nd=/two\r\n").unwrap();
    assert_eq!(m.lib_dirs, strings(&["/two"]));
}

#[test]
fn a_flag_at_the_end_has_no_argument() {
    let m = parse_pkg_config_link_metadata("Libs: -la -L\n").unwrap();
    assert_eq!(m.libs, strings(&["a"]));
    assert!(m.lib_dirs.is_empty());
}

#[test]
fn nothing_is_listed_twice() {
    let m = parse_pkg_config_link_metadata("Libs: -lx -lx -L/a -L/a\\\n").unwrap();
    assert_eq!(m.libs, strings(&["x"]));
    assert_eq!(m.lib_dirs, strings(&["/a", "/a/"]));
}
