//! Generation of the `CMakeLists.txt` files that build a project and its dependencies.

use vstd::prelude::*;
use vstd::string::StringExecFns;
use crate::error::CakeError;
use crate::manifest::{Manifest, Package, dependency_names, dependency_views};
use crate::text::{decorate, join_decorated, join_seq, str_eq, string_views};

verus! {

/// Whether the package is written in C.
pub open spec fn language_is_c(package: Package) -> bool {
    package.language matches Some(l) && l@ == "c"@
}

/// Whether the package is a library.
pub open spec fn type_is_library(package: Package) -> bool {
    package.package_type matches Some(t) && t@ == "library"@
}

/// The extension of the package's source files.
pub open spec fn spec_source_extension(package: Package) -> Seq<char> {
    if language_is_c(package) { "c"@ } else { "cpp"@ }
}

/// The CMake name of the package's language.
pub open spec fn spec_cmake_language(package: Package) -> Seq<char> {
    if language_is_c(package) { "C"@ } else { "CXX"@ }
}

/// Each item on a line of its own, indented by four spaces.
pub open spec fn indented_lines(items: Seq<Seq<char>>) -> Seq<char> {
    join_seq(decorate(items, "    "@, ""@), "\n"@)
}

/// A `add_subdirectory` line for each dependency.
pub open spec fn subdirectory_lines(dependencies: Seq<Seq<char>>) -> Seq<char> {
    join_seq(decorate(dependencies, "add_subdirectory(.cake/packages/"@, ")"@), "\n"@)
}

/// The `target_link_libraries` block, empty when there is nothing to link.
pub open spec fn link_section(name: Seq<char>, dependencies: Seq<Seq<char>>, visibility: Seq<char>) -> Seq<char> {
    if dependencies.len() == 0 {
        Seq::empty()
    } else {
        "\ntarget_link_libraries(\n    "@ + name + "\n    "@ + visibility + "\n"@ + indented_lines(dependencies)
            + "\n)\n"@
    }
}

/// The opening lines that every generated file shares.
pub open spec fn project_header(package: Package) -> Seq<char> {
    "cmake_minimum_required(VERSION 3.20)\n\nproject("@ + package.name@ + "\n    VERSION "@ + package.version@
        + "\n    LANGUAGES "@ + spec_cmake_language(package) + "\n)\n\n"@
}

/// The `CMakeLists.txt` of a dependency: a library with a public `include` directory,
/// linked against the dependency's own dependencies.
pub open spec fn dependency_cmake(package: Package, dependencies: Seq<Seq<char>>) -> Seq<char> {
    project_header(package) + "add_library(\n    "@ + package.name@ + "\n    src/"@ + package.name@ + "."@
        + spec_source_extension(package) + "\n)\n\ntarget_include_directories(\n    "@ + package.name@
        + "\n    PUBLIC\n    include\n)"@ + link_section(package.name@, dependencies, "PUBLIC"@) + "\n"@
}

/// The `CMakeLists.txt` of a library project.
pub open spec fn library_cmake(package: Package, include_dirs: Seq<Seq<char>>, dependencies: Seq<Seq<char>>) -> Seq<char> {
    project_header(package) + "add_library(\n    "@ + package.name@ + "\n    src/"@ + package.name@ + "."@
        + spec_source_extension(package) + "\n)\n\ntarget_include_directories(\n    "@ + package.name@
        + "\n    PUBLIC\n"@ + indented_lines(include_dirs) + "\n)\n\n"@ + link_section(
        package.name@,
        dependencies,
        "PRIVATE"@,
    ) + "\n"@
}

/// The file that holds `main` in a binary project.
pub open spec fn main_source(package: Package) -> Seq<char> {
    if language_is_c(package) { "main.c"@ } else { "main.cpp"@ }
}

/// The `CMakeLists.txt` of a binary project, which also adds each dependency's directory.
pub open spec fn binary_cmake(package: Package, include_dirs: Seq<Seq<char>>, dependencies: Seq<Seq<char>>) -> Seq<char> {
    project_header(package) + subdirectory_lines(dependencies) + "\n\nadd_executable(\n    "@ + package.name@
        + "\n    src/"@ + main_source(package) + "\n)\n\ntarget_include_directories(\n    "@ + package.name@
        + "\n    PRIVATE\n"@ + indented_lines(include_dirs) + "\n)\n\n"@ + link_section(
        package.name@,
        dependencies,
        "PRIVATE"@,
    ) + "\n"@
}

/// The `CMakeLists.txt` of a project: the library file for a package of type `library`,
/// the binary file otherwise.
pub open spec fn project_cmake(package: Package, include_dirs: Seq<Seq<char>>, dependencies: Seq<Seq<char>>) -> Seq<char> {
    if type_is_library(package) {
        library_cmake(package, include_dirs, dependencies)
    } else {
        binary_cmake(package, include_dirs, dependencies)
    }
}

fn is_c(package: &Package) -> (r: bool)
    ensures
        r == language_is_c(*package),
{
    match &package.language {
        Some(l) => str_eq(l.as_str(), "c"),
        None => false,
    }
}

/// Whether the package is a library.
pub fn is_library(package: &Package) -> (r: bool)
    ensures
        r == type_is_library(*package),
{
    match &package.package_type {
        Some(t) => str_eq(t.as_str(), "library"),
        None => false,
    }
}

/// The extension of the package's source files: `c` for C, `cpp` otherwise.
pub fn source_extension(package: &Package) -> (r: &'static str)
    ensures
        r@ == spec_source_extension(*package),
{
    if is_c(package) { "c" } else { "cpp" }
}

/// The CMake language of the package: `C` for C, `CXX` otherwise.
pub fn cmake_language(package: &Package) -> (r: &'static str)
    ensures
        r@ == spec_cmake_language(*package),
{
    if is_c(package) { "C" } else { "CXX" }
}

/// The dependencies, one per line, indented by four spaces.
pub fn format_dependencies(dependencies: &[String]) -> (r: String)
    ensures
        r@ == indented_lines(string_views(dependencies@)),
{
    join_decorated(dependencies, "    ", "", "\n")
}

/// The include directories, one per line, indented by four spaces.
pub fn format_include_dirs(include_dirs: &[String]) -> (r: String)
    ensures
        r@ == indented_lines(string_views(include_dirs@)),
{
    join_decorated(include_dirs, "    ", "", "\n")
}

fn link_section_text(name: &str, dependencies: &[String], visibility: &str) -> (r: String)
    ensures
        r@ == link_section(name@, string_views(dependencies@), visibility@),
{
    if dependencies.len() == 0 {
        return String::new();
    }
    let deps = format_dependencies(dependencies);
    let mut s = String::from_str("\ntarget_link_libraries(\n    ");
    s.append(name);
    s.append("\n    ");
    s.append(visibility);
    s.append("\n");
    s.append(deps.as_str());
    s.append("\n)\n");
    s
}

fn header_text(package: &Package) -> (r: String)
    ensures
        r@ == project_header(*package),
{
    let mut s = String::from_str("cmake_minimum_required(VERSION 3.20)\n\nproject(");
    s.append(package.name.as_str());
    s.append("\n    VERSION ");
    s.append(package.version.as_str());
    s.append("\n    LANGUAGES ");
    s.append(cmake_language(package));
    s.append("\n)\n\n");
    s
}

/// The `CMakeLists.txt` of a dependency, from its manifest.
pub fn generate_dependency_cmake(manifest: &Manifest) -> (r: Result<String, CakeError>)
    ensures
        r matches Ok(s) && s@ == dependency_cmake(manifest.package, dependency_names(dependency_views(manifest.dependencies@))),
{
    let package = &manifest.package;
    let dependencies = dependency_name_list(&manifest.dependencies);
    let link = link_section_text(package.name.as_str(), dependencies.as_slice(), "PUBLIC");
    let mut s = header_text(package);
    s.append("add_library(\n    ");
    s.append(package.name.as_str());
    s.append("\n    src/");
    s.append(package.name.as_str());
    s.append(".");
    s.append(source_extension(package));
    s.append("\n)\n\ntarget_include_directories(\n    ");
    s.append(package.name.as_str());
    s.append("\n    PUBLIC\n    include\n)");
    s.append(link.as_str());
    s.append("\n");
    Ok(s)
}

/// The `CMakeLists.txt` of a library project.
pub fn generate_library_cmake(package: &Package, include_dirs: &[String], dependencies: &[String]) -> (r: String)
    ensures
        r@ == library_cmake(*package, string_views(include_dirs@), string_views(dependencies@)),
{
    let includes = format_include_dirs(include_dirs);
    let link = link_section_text(package.name.as_str(), dependencies, "PRIVATE");
    let mut s = header_text(package);
    s.append("add_library(\n    ");
    s.append(package.name.as_str());
    s.append("\n    src/");
    s.append(package.name.as_str());
    s.append(".");
    s.append(source_extension(package));
    s.append("\n)\n\ntarget_include_directories(\n    ");
    s.append(package.name.as_str());
    s.append("\n    PUBLIC\n");
    s.append(includes.as_str());
    s.append("\n)\n\n");
    s.append(link.as_str());
    s.append("\n");
    s
}

/// The `CMakeLists.txt` of a binary project.
pub fn generate_binary_cmake(package: &Package, include_dirs: &[String], dependencies: &[String]) -> (r: String)
    ensures
        r@ == binary_cmake(*package, string_views(include_dirs@), string_views(dependencies@)),
{
    let includes = format_include_dirs(include_dirs);
    let link = link_section_text(package.name.as_str(), dependencies, "PRIVATE");
    let source = if is_c(package) { "main.c" } else { "main.cpp" };
    let subdirs = join_decorated(dependencies, "add_subdirectory(.cake/packages/", ")", "\n");
    let mut s = header_text(package);
    s.append(subdirs.as_str());
    s.append("\n\nadd_executable(\n    ");
    s.append(package.name.as_str());
    s.append("\n    src/");
    s.append(source);
    s.append("\n)\n\ntarget_include_directories(\n    ");
    s.append(package.name.as_str());
    s.append("\n    PRIVATE\n");
    s.append(includes.as_str());
    s.append("\n)\n\n");
    s.append(link.as_str());
    s.append("\n");
    s
}

/// The `CMakeLists.txt` of a project, chosen by its package type.
pub fn generate_cmake(manifest: &Manifest, include_dirs: &[String], dependencies: &[String]) -> (r: String)
    ensures
        r@ == project_cmake(manifest.package, string_views(include_dirs@), string_views(dependencies@)),
{
    let package = &manifest.package;
    if is_library(package) {
        generate_library_cmake(package, include_dirs, dependencies)
    } else {
        generate_binary_cmake(package, include_dirs, dependencies)
    }
}

/// The names of the dependencies, in their order.
pub fn dependency_name_list(dependencies: &Vec<(String, String)>) -> (r: Vec<String>)
    ensures
        string_views(r@) == dependency_names(dependency_views(dependencies@)),
{
    let mut r: Vec<String> = Vec::new();
    let n = dependencies.len();
    let mut i: usize = 0;
    while i < n
        invariant
            n == dependencies@.len(),
            i <= n,
            string_views(r@) == dependency_names(dependency_views(dependencies@)).take(i as int),
        decreases n - i,
    {
        let ghost r0 = r@;
        let name = dependencies[i].0.clone();
        assert(name@ == dependency_names(dependency_views(dependencies@))[i as int]);
        r.push(name);
        assert(string_views(r@) =~= string_views(r0).push(name@));
        assert(dependency_names(dependency_views(dependencies@)).take(i + 1) =~= dependency_names(dependency_views(dependencies@)).take(i as int).push(name@));
        i = i + 1;
    }
    assert(dependency_names(dependency_views(dependencies@)).take(n as int) =~= dependency_names(dependency_views(dependencies@)));
    r
}

/// Adding an item to a list of decorated lines adds one line at the end: the decorated
/// item, after a newline unless the list was empty.
proof fn lemma_decorated_lines_push(items: Seq<Seq<char>>, x: Seq<char>, prefix: Seq<char>, suffix: Seq<char>)
    ensures
        join_seq(decorate(items.push(x), prefix, suffix), "\n"@) == (if items.len() == 0 {
            prefix + x + suffix
        } else {
            join_seq(decorate(items, prefix, suffix), "\n"@) + "\n"@ + (prefix + x + suffix)
        }),
{
    let d = decorate(items.push(x), prefix, suffix);
    assert(d.drop_last() =~= decorate(items, prefix, suffix));
    if items.len() == 0 {
        assert(d.len() == 1);
    }
}

/// Adding an item to a list of indented lines adds one line at the end: four spaces and
/// the item, after a newline unless the list was empty.
proof fn lemma_indented_lines_push(items: Seq<Seq<char>>, x: Seq<char>)
    ensures
        indented_lines(items.push(x)) == (if items.len() == 0 {
            "    "@ + x
        } else {
            indented_lines(items) + "\n    "@ + x
        }),
{
    reveal_strlit("    ");
    reveal_strlit("\n");
    reveal_strlit("\n    ");
    reveal_strlit("");
    lemma_decorated_lines_push(items, x, "    "@, ""@);
    assert("    "@ + x + ""@ =~= "    "@ + x);
    if items.len() > 0 {
        assert(indented_lines(items) + "\n"@ + ("    "@ + x) =~= indented_lines(items) + "\n    "@ + x);
    }
}

/// The last line of a non-empty list of indented lines holds its last item.
proof fn lemma_indented_lines_last(items: Seq<Seq<char>>)
    requires
        items.len() > 0,
    ensures
        ("    "@ + items.last()).is_suffix_of(indented_lines(items)),
{
    let front = items.drop_last();
    assert(front.push(items.last()) =~= items);
    lemma_indented_lines_push(front, items.last());
    let t = "    "@ + items.last();
    if front.len() == 0 {
        assert(t =~= indented_lines(items).subrange(indented_lines(items).len() - t.len(), indented_lines(items).len() as int));
    } else {
        reveal_strlit("\n    ");
        reveal_strlit("    ");
        reveal_strlit("\n");
        assert(indented_lines(items) == indented_lines(front) + "\n    "@ + items.last());
        assert(indented_lines(items) =~= (indented_lines(front) + "\n"@) + t);
        assert(t =~= indented_lines(items).subrange(indented_lines(items).len() - t.len(), indented_lines(items).len() as int));
    }
}

/// The binary `CMakeLists.txt` lists every include directory, in order: giving one more
/// directory adds exactly one line, four spaces and the directory, right after the line of
/// the last directory given before (or right after `PRIVATE` when there was none) and right
/// before the block's closing parenthesis; nothing else changes.
pub proof fn law_binary_cmake_lists_each_include_dir(
    package: Package,
    include_dirs: Seq<Seq<char>>,
    dependencies: Seq<Seq<char>>,
    dir: Seq<char>,
)
    ensures
        exists|u: Seq<char>, v: Seq<char>|
            #![trigger u + v]
            binary_cmake(package, include_dirs, dependencies) == u + v
            && "\n)\n\n"@.is_prefix_of(v)
            && (if include_dirs.len() == 0 {
                ("target_include_directories(\n    "@ + package.name@ + "\n    PRIVATE\n"@).is_suffix_of(u)
                && binary_cmake(package, include_dirs.push(dir), dependencies) == u + "    "@ + dir + v
            } else {
                ("    "@ + include_dirs.last()).is_suffix_of(u)
                && binary_cmake(package, include_dirs.push(dir), dependencies) == u + "\n    "@ + dir + v
            }),
{
    let head = project_header(package) + subdirectory_lines(dependencies) + "\n\nadd_executable(\n    "@ + package.name@
        + "\n    src/"@ + main_source(package) + "\n)\n\n"@;
    let opening = "target_include_directories(\n    "@ + package.name@ + "\n    PRIVATE\n"@;
    let i1 = indented_lines(include_dirs);
    let i2 = indented_lines(include_dirs.push(dir));
    let u = head + opening + i1;
    let v = "\n)\n\n"@ + link_section(package.name@, dependencies, "PRIVATE"@) + "\n"@;
    assert(binary_cmake(package, include_dirs, dependencies) =~= u + v) by {
        reveal_strlit("\n)\n\ntarget_include_directories(\n    ");
        reveal_strlit("target_include_directories(\n    ");
        reveal_strlit("\n)\n\n");
    }
    assert(binary_cmake(package, include_dirs.push(dir), dependencies) =~= head + opening + i2 + v) by {
        reveal_strlit("\n)\n\ntarget_include_directories(\n    ");
        reveal_strlit("target_include_directories(\n    ");
        reveal_strlit("\n)\n\n");
    }
    assert("\n)\n\n"@.is_prefix_of(v)) by {
        reveal_strlit("\n)\n\n");
        assert("\n)\n\n"@ =~= v.subrange(0, 4));
    }
    lemma_indented_lines_push(include_dirs, dir);
    if include_dirs.len() == 0 {
        assert(i1 =~= Seq::<char>::empty());
        assert(opening.is_suffix_of(u)) by {
            assert(opening =~= u.subrange(u.len() - opening.len(), u.len() as int));
        }
        assert(head + opening + i2 + v =~= u + "    "@ + dir + v);
    } else {
        lemma_indented_lines_last(include_dirs);
        let t = "    "@ + include_dirs.last();
        assert(t.is_suffix_of(u)) by {
            assert(t =~= u.subrange(u.len() - t.len(), u.len() as int));
        }
        assert(head + opening + i2 + v =~= u + "\n    "@ + dir + v);
    }
}

/// The library `CMakeLists.txt` lists every include directory, in order: giving one more
/// directory adds exactly one line, four spaces and the directory, right after the line of
/// the last directory given before (or right after `PUBLIC` when there was none) and right
/// before the block's closing parenthesis; nothing else changes.
pub proof fn law_library_cmake_lists_each_include_dir(
    package: Package,
    include_dirs: Seq<Seq<char>>,
    dependencies: Seq<Seq<char>>,
    dir: Seq<char>,
)
    ensures
        exists|u: Seq<char>, v: Seq<char>|
            #![trigger u + v]
            library_cmake(package, include_dirs, dependencies) == u + v
            && "\n)\n\n"@.is_prefix_of(v)
            && (if include_dirs.len() == 0 {
                ("target_include_directories(\n    "@ + package.name@ + "\n    PUBLIC\n"@).is_suffix_of(u)
                && library_cmake(package, include_dirs.push(dir), dependencies) == u + "    "@ + dir + v
            } else {
                ("    "@ + include_dirs.last()).is_suffix_of(u)
                && library_cmake(package, include_dirs.push(dir), dependencies) == u + "\n    "@ + dir + v
            }),
{
    let head = project_header(package) + "add_library(\n    "@ + package.name@ + "\n    src/"@ + package.name@ + "."@
        + spec_source_extension(package) + "\n)\n\n"@;
    let opening = "target_include_directories(\n    "@ + package.name@ + "\n    PUBLIC\n"@;
    let i1 = indented_lines(include_dirs);
    let i2 = indented_lines(include_dirs.push(dir));
    let u = head + opening + i1;
    let v = "\n)\n\n"@ + link_section(package.name@, dependencies, "PRIVATE"@) + "\n"@;
    assert(library_cmake(package, include_dirs, dependencies) =~= u + v) by {
        reveal_strlit("\n)\n\ntarget_include_directories(\n    ");
        reveal_strlit("target_include_directories(\n    ");
        reveal_strlit("\n)\n\n");
    }
    assert(library_cmake(package, include_dirs.push(dir), dependencies) =~= head + opening + i2 + v) by {
        reveal_strlit("\n)\n\ntarget_include_directories(\n    ");
        reveal_strlit("target_include_directories(\n    ");
        reveal_strlit("\n)\n\n");
    }
    assert("\n)\n\n"@.is_prefix_of(v)) by {
        reveal_strlit("\n)\n\n");
        assert("\n)\n\n"@ =~= v.subrange(0, 4));
    }
    lemma_indented_lines_push(include_dirs, dir);
    if include_dirs.len() == 0 {
        assert(i1 =~= Seq::<char>::empty());
        assert(opening.is_suffix_of(u)) by {
            assert(opening =~= u.subrange(u.len() - opening.len(), u.len() as int));
        }
        assert(head + opening + i2 + v =~= u + "    "@ + dir + v);
    } else {
        lemma_indented_lines_last(include_dirs);
        let t = "    "@ + include_dirs.last();
        assert(t.is_suffix_of(u)) by {
            assert(t =~= u.subrange(u.len() - t.len(), u.len() as int));
        }
        assert(head + opening + i2 + v =~= u + "\n    "@ + dir + v);
    }
}

/// A dependency's `CMakeLists.txt` links it against every dependency its manifest lists,
/// in order. Without dependencies it has no `target_link_libraries` block; the first
/// dependency adds the whole block, `target_link_libraries(<name> PUBLIC <dependency>)`,
/// right after the include block; each further dependency adds exactly one line, four
/// spaces and its name, right after the line of the dependency before it; nothing else
/// changes.
pub proof fn law_dependency_cmake_links_each_dependency(
    package: Package,
    dependencies: Seq<Seq<char>>,
    dependency: Seq<char>,
)
    ensures
        exists|u: Seq<char>, v: Seq<char>|
            #![trigger u + v]
            dependency_cmake(package, dependencies) == u + v
            && (if dependencies.len() == 0 {
                "\n    PUBLIC\n    include\n)"@.is_suffix_of(u)
                && v == "\n"@
                && dependency_cmake(package, dependencies.push(dependency)) == u + "\ntarget_link_libraries(\n    "@
                    + package.name@ + "\n    PUBLIC\n    "@ + dependency + "\n)\n"@ + v
            } else {
                ("    "@ + dependencies.last()).is_suffix_of(u)
                && v == "\n)\n\n"@
                && dependency_cmake(package, dependencies.push(dependency)) == u + "\n    "@ + dependency + v
            }),
{
    let tail = "\n    PUBLIC\n    include\n)"@;
    let pre = project_header(package) + "add_library(\n    "@ + package.name@ + "\n    src/"@ + package.name@ + "."@
        + spec_source_extension(package) + "\n)\n\ntarget_include_directories(\n    "@ + package.name@ + tail;
    let opening = "\ntarget_link_libraries(\n    "@ + package.name@ + "\n    "@ + "PUBLIC"@ + "\n"@;
    let pushed = dependencies.push(dependency);
    assert(dependency_cmake(package, dependencies) =~= pre + link_section(package.name@, dependencies, "PUBLIC"@) + "\n"@);
    assert(dependency_cmake(package, pushed) =~= pre + link_section(package.name@, pushed, "PUBLIC"@) + "\n"@);
    lemma_indented_lines_push(dependencies, dependency);
    assert(link_section(package.name@, pushed, "PUBLIC"@) == opening + indented_lines(pushed) + "\n)\n"@);
    if dependencies.len() == 0 {
        let u = pre;
        let v = "\n"@;
        assert(link_section(package.name@, dependencies, "PUBLIC"@) =~= Seq::<char>::empty());
        assert(dependency_cmake(package, dependencies) =~= u + v);
        assert(tail.is_suffix_of(u)) by {
            assert(tail =~= u.subrange(u.len() - tail.len(), u.len() as int));
        }
        assert(dependency_cmake(package, pushed) =~= u + "\ntarget_link_libraries(\n    "@ + package.name@
            + "\n    PUBLIC\n    "@ + dependency + "\n)\n"@ + v) by {
            reveal_strlit("\n    ");
            reveal_strlit("PUBLIC");
            reveal_strlit("\n");
            reveal_strlit("    ");
            reveal_strlit("\n    PUBLIC\n    ");
        }
    } else {
        let u = pre + opening + indented_lines(dependencies);
        let v = "\n)\n\n"@;
        assert(link_section(package.name@, dependencies, "PUBLIC"@) == opening + indented_lines(dependencies) + "\n)\n"@);
        assert(dependency_cmake(package, dependencies) =~= u + v) by {
            reveal_strlit("\n)\n\n");
            reveal_strlit("\n)\n");
            reveal_strlit("\n");
        }
        lemma_indented_lines_last(dependencies);
        let t = "    "@ + dependencies.last();
        assert(t.is_suffix_of(u)) by {
            assert(t =~= u.subrange(u.len() - t.len(), u.len() as int));
        }
        assert(dependency_cmake(package, pushed) =~= u + "\n    "@ + dependency + v) by {
            reveal_strlit("\n)\n\n");
            reveal_strlit("\n)\n");
            reveal_strlit("\n");
        }
    }
}

/// The last line of a non-empty list of decorated lines holds its last item.
proof fn lemma_decorated_lines_last(items: Seq<Seq<char>>, prefix: Seq<char>, suffix: Seq<char>)
    requires
        items.len() > 0,
    ensures
        (prefix + items.last() + suffix).is_suffix_of(join_seq(decorate(items, prefix, suffix), "\n"@)),
{
    let front = items.drop_last();
    assert(front.push(items.last()) =~= items);
    lemma_decorated_lines_push(front, items.last(), prefix, suffix);
    let j = join_seq(decorate(items, prefix, suffix), "\n"@);
    let t = prefix + items.last() + suffix;
    assert(t =~= j.subrange(j.len() - t.len(), j.len() as int));
}

/// The library `CMakeLists.txt` links the library against every dependency, in order.
/// Without dependencies it has no `target_link_libraries` block; the first dependency adds
/// the whole block, `target_link_libraries(<name> PRIVATE <dependency>)`, right after the
/// include block; each further dependency adds exactly one line, four spaces and its name,
/// right after the line of the dependency before it; nothing else changes.
pub proof fn law_library_cmake_links_each_dependency(
    package: Package,
    include_dirs: Seq<Seq<char>>,
    dependencies: Seq<Seq<char>>,
    dependency: Seq<char>,
)
    ensures
        exists|u: Seq<char>, v: Seq<char>|
            #![trigger u + v]
            library_cmake(package, include_dirs, dependencies) == u + v
            && (if dependencies.len() == 0 {
                "\n)\n\n"@.is_suffix_of(u)
                && v == "\n"@
                && library_cmake(package, include_dirs, dependencies.push(dependency)) == u + "\ntarget_link_libraries(\n    "@
                    + package.name@ + "\n    PRIVATE\n    "@ + dependency + "\n)\n"@ + v
            } else {
                ("    "@ + dependencies.last()).is_suffix_of(u)
                && v == "\n)\n\n"@
                && library_cmake(package, include_dirs, dependencies.push(dependency)) == u + "\n    "@ + dependency + v
            }),
{
    let close = "\n)\n\n"@;
    let pre = project_header(package) + "add_library(\n    "@ + package.name@ + "\n    src/"@ + package.name@ + "."@
        + spec_source_extension(package) + "\n)\n\ntarget_include_directories(\n    "@ + package.name@
        + "\n    PUBLIC\n"@ + indented_lines(include_dirs) + close;
    let opening = "\ntarget_link_libraries(\n    "@ + package.name@ + "\n    "@ + "PRIVATE"@ + "\n"@;
    let pushed = dependencies.push(dependency);
    assert(library_cmake(package, include_dirs, dependencies) =~= pre + link_section(package.name@, dependencies, "PRIVATE"@) + "\n"@);
    assert(library_cmake(package, include_dirs, pushed) =~= pre + link_section(package.name@, pushed, "PRIVATE"@) + "\n"@);
    lemma_indented_lines_push(dependencies, dependency);
    assert(link_section(package.name@, pushed, "PRIVATE"@) == opening + indented_lines(pushed) + "\n)\n"@);
    if dependencies.len() == 0 {
        let u = pre;
        let v = "\n"@;
        assert(link_section(package.name@, dependencies, "PRIVATE"@) =~= Seq::<char>::empty());
        assert(library_cmake(package, include_dirs, dependencies) =~= u + v);
        assert(close.is_suffix_of(u)) by {
            assert(close =~= u.subrange(u.len() - close.len(), u.len() as int));
        }
        assert(library_cmake(package, include_dirs, pushed) =~= u + "\ntarget_link_libraries(\n    "@ + package.name@
            + "\n    PRIVATE\n    "@ + dependency + "\n)\n"@ + v) by {
            reveal_strlit("\n    ");
            reveal_strlit("PRIVATE");
            reveal_strlit("\n");
            reveal_strlit("    ");
            reveal_strlit("\n    PRIVATE\n    ");
        }
    } else {
        let u = pre + opening + indented_lines(dependencies);
        let v = "\n)\n\n"@;
        assert(link_section(package.name@, dependencies, "PRIVATE"@) == opening + indented_lines(dependencies) + "\n)\n"@);
        assert(library_cmake(package, include_dirs, dependencies) =~= u + v) by {
            reveal_strlit("\n)\n\n");
            reveal_strlit("\n)\n");
            reveal_strlit("\n");
        }
        lemma_indented_lines_last(dependencies);
        let t = "    "@ + dependencies.last();
        assert(t.is_suffix_of(u)) by {
            assert(t =~= u.subrange(u.len() - t.len(), u.len() as int));
        }
        assert(library_cmake(package, include_dirs, pushed) =~= u + "\n    "@ + dependency + v) by {
            reveal_strlit("\n)\n\n");
            reveal_strlit("\n)\n");
            reveal_strlit("\n");
        }
    }
}

/// The binary `CMakeLists.txt` adds the directory of every dependency and links the program
/// against every dependency, in order. One more dependency adds exactly two lines: an
/// `add_subdirectory(.cake/packages/<dependency>)` line after those of the dependencies
/// before it, and, in the `target_link_libraries` block, a line with four spaces and its
/// name after the line of the dependency before it; the first dependency brings the whole
/// `target_link_libraries(<name> PRIVATE <dependency>)` block, which is absent without
/// dependencies. Nothing else changes.
pub proof fn law_binary_cmake_links_each_dependency(
    package: Package,
    include_dirs: Seq<Seq<char>>,
    dependencies: Seq<Seq<char>>,
    dependency: Seq<char>,
)
    ensures
        exists|a: Seq<char>, b: Seq<char>, c: Seq<char>|
            #![trigger a + b + c]
            binary_cmake(package, include_dirs, dependencies) == a + b + c
            && (if dependencies.len() == 0 {
                a == project_header(package)
                && c == "\n"@
                && binary_cmake(package, include_dirs, dependencies.push(dependency)) == a
                    + "add_subdirectory(.cake/packages/"@ + dependency + ")"@ + b
                    + "\ntarget_link_libraries(\n    "@ + package.name@ + "\n    PRIVATE\n    "@ + dependency + "\n)\n"@ + c
            } else {
                ("add_subdirectory(.cake/packages/"@ + dependencies.last() + ")"@).is_suffix_of(a)
                && ("    "@ + dependencies.last()).is_suffix_of(a + b)
                && c == "\n)\n\n"@
                && binary_cmake(package, include_dirs, dependencies.push(dependency)) == a
                    + ("\nadd_subdirectory(.cake/packages/"@ + dependency + ")"@) + b + ("\n    "@ + dependency) + c
            }),
{
    if dependencies.len() == 0 {
        let (a, b, c) = binary_first_dependency(package, include_dirs, dependencies, dependency);
        assert(binary_cmake(package, include_dirs, dependencies) == a + b + c);
    } else {
        let (a, b, c) = binary_next_dependency(package, include_dirs, dependencies, dependency);
        assert(binary_cmake(package, include_dirs, dependencies) == a + b + c);
    }
}

/// The middle of a binary `CMakeLists.txt`: from the executable to the end of the include block.
spec fn binary_middle(package: Package, include_dirs: Seq<Seq<char>>) -> Seq<char> {
    "\n\nadd_executable(\n    "@ + package.name@ + "\n    src/"@ + main_source(package)
        + "\n)\n\ntarget_include_directories(\n    "@ + package.name@ + "\n    PRIVATE\n"@ + indented_lines(include_dirs)
        + "\n)\n\n"@
}

proof fn lemma_binary_parts(package: Package, include_dirs: Seq<Seq<char>>, dependencies: Seq<Seq<char>>)
    ensures
        binary_cmake(package, include_dirs, dependencies) == project_header(package) + subdirectory_lines(dependencies)
            + binary_middle(package, include_dirs) + link_section(package.name@, dependencies, "PRIVATE"@) + "\n"@,
{
    assert(binary_cmake(package, include_dirs, dependencies) =~= project_header(package) + subdirectory_lines(dependencies)
        + binary_middle(package, include_dirs) + link_section(package.name@, dependencies, "PRIVATE"@) + "\n"@);
}

proof fn binary_first_dependency(
    package: Package,
    include_dirs: Seq<Seq<char>>,
    dependencies: Seq<Seq<char>>,
    dependency: Seq<char>,
) -> (r: (Seq<char>, Seq<char>, Seq<char>))
    requires
        dependencies.len() == 0,
    ensures
        binary_cmake(package, include_dirs, dependencies) == r.0 + r.1 + r.2,
        r.0 == project_header(package),
        r.2 == "\n"@,
        binary_cmake(package, include_dirs, dependencies.push(dependency)) == r.0
            + "add_subdirectory(.cake/packages/"@ + dependency + ")"@ + r.1
            + "\ntarget_link_libraries(\n    "@ + package.name@ + "\n    PRIVATE\n    "@ + dependency + "\n)\n"@ + r.2,
{
    let pushed = dependencies.push(dependency);
    let h = project_header(package);
    let mid = binary_middle(package, include_dirs);
    lemma_binary_parts(package, include_dirs, dependencies);
    lemma_binary_parts(package, include_dirs, pushed);
    lemma_indented_lines_push(dependencies, dependency);
    lemma_decorated_lines_push(dependencies, dependency, "add_subdirectory(.cake/packages/"@, ")"@);
    assert(link_section(package.name@, dependencies, "PRIVATE"@) =~= Seq::<char>::empty());
    assert(subdirectory_lines(dependencies) =~= Seq::<char>::empty());
    let sub = "add_subdirectory(.cake/packages/"@ + dependency + ")"@;
    let link = "\ntarget_link_libraries(\n    "@ + package.name@ + "\n    PRIVATE\n    "@ + dependency + "\n)\n"@;
    assert(subdirectory_lines(pushed) == sub);
    assert(link_section(package.name@, pushed, "PRIVATE"@) =~= link) by {
        reveal_strlit("\n    ");
        reveal_strlit("PRIVATE");
        reveal_strlit("\n");
        reveal_strlit("    ");
        reveal_strlit("\n    PRIVATE\n    ");
    }
    assert(binary_cmake(package, include_dirs, dependencies) =~= h + mid + "\n"@);
    assert(binary_cmake(package, include_dirs, pushed) =~= h + sub + mid + link + "\n"@);
    (h, mid, "\n"@)
}

/// A suffix of a text stays a suffix when something is put in front of the text.
proof fn lemma_suffix_extends(t: Seq<char>, x: Seq<char>, y: Seq<char>)
    requires
        t.is_suffix_of(x),
    ensures
        t.is_suffix_of(y + x),
{
    assert(t =~= (y + x).subrange((y + x).len() - t.len(), (y + x).len() as int));
}

/// Regrouping the pieces of a text that two insertions change.
proof fn lemma_regroup(h: Seq<char>, s0: Seq<char>, sub: Seq<char>, mid: Seq<char>, op: Seq<char>, i0: Seq<char>,
    ins: Seq<char>, cl: Seq<char>, nl: Seq<char>)
    ensures
        h + (s0 + sub) + mid + (op + i0 + ins + cl) + nl == (h + s0) + sub + (mid + op + i0) + ins + (cl + nl),
        h + s0 + mid + (op + i0 + cl) + nl == (h + s0) + (mid + op + i0) + (cl + nl),
{
    assert(h + (s0 + sub) + mid + (op + i0 + ins + cl) + nl =~= (h + s0) + sub + (mid + op + i0) + ins + (cl + nl));
    assert(h + s0 + mid + (op + i0 + cl) + nl =~= (h + s0) + (mid + op + i0) + (cl + nl));
}

proof fn binary_next_dependency(
    package: Package,
    include_dirs: Seq<Seq<char>>,
    dependencies: Seq<Seq<char>>,
    dependency: Seq<char>,
) -> (r: (Seq<char>, Seq<char>, Seq<char>))
    requires
        dependencies.len() > 0,
    ensures
        binary_cmake(package, include_dirs, dependencies) == r.0 + r.1 + r.2,
        ("add_subdirectory(.cake/packages/"@ + dependencies.last() + ")"@).is_suffix_of(r.0),
        ("    "@ + dependencies.last()).is_suffix_of(r.0 + r.1),
        r.2 == "\n)\n\n"@,
        binary_cmake(package, include_dirs, dependencies.push(dependency)) == r.0
            + ("\nadd_subdirectory(.cake/packages/"@ + dependency + ")"@) + r.1 + ("\n    "@ + dependency) + r.2,
{
    let pfx = "add_subdirectory(.cake/packages/"@;
    let sfx = ")"@;
    let pushed = dependencies.push(dependency);
    let opening = "\ntarget_link_libraries(\n    "@ + package.name@ + "\n    "@ + "PRIVATE"@ + "\n"@;
    let h = project_header(package);
    let mid = binary_middle(package, include_dirs);
    let s0 = subdirectory_lines(dependencies);
    let i0 = indented_lines(dependencies);
    let sub = "\nadd_subdirectory(.cake/packages/"@ + dependency + ")"@;
    let ins = "\n    "@ + dependency;
    let cl = "\n)\n"@;
    let nl = "\n"@;
    lemma_binary_parts(package, include_dirs, dependencies);
    lemma_binary_parts(package, include_dirs, pushed);
    assert(subdirectory_lines(pushed) == s0 + sub) by {
        lemma_decorated_lines_push(dependencies, dependency, pfx, sfx);
        reveal_strlit("\n");
        reveal_strlit("add_subdirectory(.cake/packages/");
        reveal_strlit("\nadd_subdirectory(.cake/packages/");
        assert(s0 + "\n"@ + (pfx + dependency + sfx) =~= s0 + sub);
    }
    assert(link_section(package.name@, dependencies, "PRIVATE"@) == opening + i0 + cl);
    assert(link_section(package.name@, pushed, "PRIVATE"@) == opening + i0 + ins + cl) by {
        lemma_indented_lines_push(dependencies, dependency);
        assert(link_section(package.name@, pushed, "PRIVATE"@) == opening + indented_lines(pushed) + cl);
    }
    assert(cl + nl == "\n)\n\n"@) by {
        reveal_strlit("\n)\n\n");
        reveal_strlit("\n)\n");
        reveal_strlit("\n");
        assert(cl + nl =~= "\n)\n\n"@);
    }
    lemma_regroup(h, s0, sub, mid, opening, i0, ins, cl, nl);
    let a = h + s0;
    let b = mid + opening + i0;
    let c = cl + nl;
    lemma_decorated_lines_last(dependencies, pfx, sfx);
    lemma_suffix_extends(pfx + dependencies.last() + sfx, s0, h);
    lemma_indented_lines_last(dependencies);
    lemma_suffix_extends("    "@ + dependencies.last(), i0, mid + opening);
    lemma_suffix_extends("    "@ + dependencies.last(), b, a);
    (a, b, c)
}

} // verus!
