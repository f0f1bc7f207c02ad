use cakeman::compiler::{
    cmake_language, format_dependencies, format_include_dirs, generate_binary_cmake, generate_cmake,
    generate_dependency_cmake, generate_library_cmake, source_extension,
};
use cakeman::manifest::{Manifest, Package};

fn package(name: &str, ty: Option<&str>, lang: Option<&str>) -> Package {
    Package {
        name: name.to_string(),
        version: "1.2.3".to_string(),
        repository: "https://example.com/r.git".to_string(),
        package_type: ty.map(|s| s.to_string()),
        language: lang.map(|s| s.to_string()),
    }
}

fn strings(v: &[&str]) -> Vec<String> {
    v.iter().map(|s| s.to_string()).collect()
}

// The text that the generators are held to, as the format strings of the command line write it.
fn expected_dependency(name: &str, version: &str, language: &str, ext: &str, deps: &[String]) -> String {
    let deps_text = deps.iter().map(|d| format!("    {}", d)).collect::<Vec<_>>().join("\n");
    let link_section = if deps.is_empty() {
        String::new()
    } else {
        format!("\ntarget_link_libraries(\n    {name}\n    PUBLIC\n{deps}\n)\n", name = name, deps = deps_text)
    };
    format!(
        "cmake_minimum_required(VERSION 3.20)\n\nproject({name}\n    VERSION {version}\n    LANGUAGES {language}\n)\n\nadd_library(\n    {name}\n    src/{name}.{ext}\n)\n\ntarget_include_directories(\n    {name}\n    PUBLIC\n    include\n){link_section}\n",
        name = name, version = version, language = language, ext = ext, link_section = link_section
    )
}

#[test]
fn language_and_extension() {
    assert_eq!(source_extension(&package("p", None, Some("c"))), "c");
    assert_eq!(source_extension(&package("p", None, Some("cpp"))), "cpp");
    assert_eq!(source_extension(&package("p", None, None)), "cpp");
    assert_eq!(cmake_language(&package("p", None, Some("c"))), "C");
    assert_eq!(cmake_language(&package("p", None, Some("C"))), "CXX");
    assert_eq!(cmake_language(&package("p", None, None)), "CXX");
}

#[test]
fn formatted_lists() {
    assert_eq!(format_dependencies(&strings(&["a", "b"])), "    a\n    b");
    assert_eq!(format_include_dirs(&strings(&["inc"])), "    inc");
    assert_eq!(format_dependencies(&[]), "");
}

#[test]
fn dependency_cmake_without_dependencies() {
    let m = Manifest { package: package("zlib", None, Some("c")), dependencies: vec![] };
    let text = generate_dependency_cmake(&m).unwrap();
    assert_eq!(text, expected_dependency("zlib", "1.2.3", "C", "c", &[]));
    assert_eq!(
        text,
        "cmake_minimum_required(VERSION 3.20)\n\nproject(zlib\n    VERSION 1.2.3\n    LANGUAGES C\n)\n\nadd_library(\n    zlib\n    src/zlib.c\n)\n\ntarget_include_directories(\n    zlib\n    PUBLIC\n    include\n)\n"
    );
}

#[test]
fn dependency_cmake_links_its_dependencies_in_order() {
    let m = Manifest {
        package: package("png", None, None),
        dependencies: vec![("zlib".to_string(), "1".to_string()), ("m".to_string(), "2".to_string())],
    };
    let text = generate_dependency_cmake(&m).unwrap();
    assert_eq!(text, expected_dependency("png", "1.2.3", "CXX", "cpp", &strings(&["zlib", "m"])));
}

#[test]
fn library_cmake() {
    let p = package("lib", Some("library"), None);
    let text = generate_library_cmake(&p, &strings(&["inc/a", "inc/b"]), &strings(&["dep"]));
    let expected = "cmake_minimum_required(VERSION 3.20)\n\nproject(lib\n    VERSION 1.2.3\n    LANGUAGES CXX\n)\n\nadd_library(\n    lib\n    src/lib.cpp\n)\n\ntarget_include_directories(\n    lib\n    PUBLIC\n    inc/a\n    inc/b\n)\n\n\ntarget_link_libraries(\n    lib\n    PRIVATE\n    dep\n)\n\n";
    assert_eq!(text, expected);
}

#[test]
fn binary_cmake() {
    let p = package("app", None, Some("c"));
    let text = generate_binary_cmake(&p, &strings(&[".cake/packages/a/include"]), &strings(&["a", "b"]));
    let expected = "cmake_minimum_required(VERSION 3.20)\n\nproject(app\n    VERSION 1.2.3\n    LANGUAGES C\n)\n\nadd_subdirectory(.cake/packages/a)\nadd_subdirectory(.cake/packages/b)\n\nadd_executable(\n    app\n    src/main.c\n)\n\ntarget_include_directories(\n    app\n    PRIVATE\n    .cake/packages/a/include\n)\n\n\ntarget_link_libraries(\n    app\n    PRIVATE\n    a\n    b\n)\n\n";
    assert_eq!(text, expected);
}

#[test]
fn binary_cmake_without_dependencies() {
    let p = package("app", None, None);
    let text = generate_binary_cmake(&p, &[], &[]);
    let expected = "cmake_minimum_required(VERSION 3.20)\n\nproject(app\n    VERSION 1.2.3\n    LANGUAGES CXX\n)\n\n\n\nadd_executable(\n    app\n    src/main.cpp\n)\n\ntarget_include_directories(\n    app\n    PRIVATE\n\n)\n\n\n";
    assert_eq!(text, expected);
}

#[test]
fn project_cmake_is_chosen_by_type() {
    let lib = Manifest { package: package("l", Some("library"), None), dependencies: vec![] };
    let bin = Manifest { package: package("b", Some("binary"), None), dependencies: vec![] };
    let none = Manifest { package: package("n", None, None), dependencies: vec![] };
    assert_eq!(generate_cmake(&lib, &[], &[]), generate_library_cmake(&lib.package, &[], &[]));
    assert_eq!(generate_cmake(&bin, &[], &[]), generate_binary_cmake(&bin.package, &[], &[]));
    assert_eq!(generate_cmake(&none, &[], &[]), generate_binary_cmake(&none.package, &[], &[]));
    assert!(generate_cmake(&lib, &[], &[]).contains("add_library("));
    assert!(generate_cmake(&none, &[], &[]).contains("add_executable("));
}
