use vstd::prelude::*;
use crate::config::{Category, Config, category_of_label};
use crate::text::{first_word, first_word_of, has_suffix, lines_of, same_text, split_lines, text_ends_with};

verus! {

/// The installers a package can be added for.
#[derive(Clone, Copy, Debug, PartialEq, Eq, Structural)]
pub enum Manager {
    Pacman,
    Yay,
}

#[derive(Clone, Debug, PartialEq, Eq)]
pub enum AddPackageError {
    /// The named installer is neither `pacman` nor `yay`.
    UnsupportedManager(String),
    /// The installer's search did not list the package, or did not complete.
    PackageNotFound(String),
}

pub open spec fn manager_of(name: Seq<char>) -> Option<Manager> {
    if name == "pacman"@ {
        Some(Manager::Pacman)
    } else if name == "yay"@ {
        Some(Manager::Yay)
    } else {
        None
    }
}

/// A search result line lists `name`: its first word ends with it.
pub open spec fn names_package(line: Seq<char>, name: Seq<char>) -> bool {
    match first_word_of(line) {
        Some(w) => has_suffix(w, name),
        None => false,
    }
}

/// Some line of the search output lists `name`.
pub open spec fn lists_package(lines: Seq<Seq<char>>, name: Seq<char>) -> bool {
    exists|i: int| 0 <= i < lines.len() && names_package(#[trigger] lines[i], name)
}

/// The installer that `name` names.
pub fn parse_manager(name: &str) -> (r: Result<Manager, AddPackageError>)
    ensures
        match manager_of(name@) {
            Some(m) => r == Ok::<Manager, AddPackageError>(m),
            None => r matches Err(AddPackageError::UnsupportedManager(s)) && s@ == name@,
        },
{
    if same_text(name, "pacman") {
        Ok(Manager::Pacman)
    } else if same_text(name, "yay") {
        Ok(Manager::Yay)
    } else {
        Err(AddPackageError::UnsupportedManager(name.to_owned()))
    }
}

/// Whether one search result line lists `name`.
pub fn line_names_package(line: &str, name: &str) -> (r: bool)
    ensures
        r == names_package(line@, name@),
{
    match first_word(line) {
        Some(w) => text_ends_with(w.as_str(), name),
        None => false,
    }
}

/// Whether any of the search output's lines lists `name`.
pub fn search_lists_package(lines: &Vec<String>, name: &str) -> (r: bool)
    ensures
        r == lists_package(lines.deep_view(), name@),
{
    let mut i: usize = 0;
    while i < lines.len()
        invariant
            i <= lines.len(),
            forall|j: int| 0 <= j < i ==> !names_package(#[trigger] lines.deep_view()[j], name@),
        decreases lines.len() - i,
    {
        if line_names_package(lines[i].as_str(), name) {
            assert(lines.deep_view()[i as int] == lines[i as int]@);
            return true;
        }
        i += 1;
    }
    false
}

/// Whether a package search found `name`: `search_output` is what the
/// installer's search printed, or `None` where the search did not complete.
pub fn package_exists(search_output: Option<&str>, name: &str) -> (r: bool)
    ensures
        r == match search_output.deep_view() {
            Some(out) => lists_package(lines_of(out), name@),
            None => false,
        },
{
    match search_output {
        Some(out) => {
            let lines = split_lines(out);
            search_lists_package(&lines, name)
        },
        None => false,
    }
}

/// Adds `package_name` to `config`, in the bucket that `category` names
/// (`other` where it names none, or is absent), and returns that bucket.
/// `search_output` is what `package_manager`'s search for the package
/// printed, or `None` where the search did not complete. On an error
/// `config` is left as it was.
pub fn run(
    package_manager: &str,
    package_name: &str,
    category: Option<&str>,
    search_output: Option<&str>,
    config: &mut Config,
) -> (r: Result<Category, AddPackageError>)
    ensures
        manager_of(package_manager@) is None ==> (r matches Err(
            AddPackageError::UnsupportedManager(s),
        ) && s@ == package_manager@),
        manager_of(package_manager@) is Some && !(match search_output.deep_view() {
            Some(out) => lists_package(lines_of(out), package_name@),
            None => false,
        }) ==> (r matches Err(AddPackageError::PackageNotFound(s)) && s@ == package_name@),
        r is Err ==> *final(config) == *old(config),
        manager_of(package_manager@) is Some && (match search_output.deep_view() {
            Some(out) => lists_package(lines_of(out), package_name@),
            None => false,
        }) ==> {
            let c = category_of_label(category.deep_view());
            &&& r == Ok::<Category, AddPackageError>(c)
            &&& final(config).packages.bucket(c) == old(config).packages.bucket(c).push(
                package_name@,
            )
            &&& forall|d: Category|
                d != c ==> final(config).packages.bucket(d) == old(config).packages.bucket(d)
            &&& final(config).system == old(config).system
            &&& final(config).locale == old(config).locale
            &&& final(config).themes == old(config).themes
            &&& final(config).widgets == old(config).widgets
        },
{
    match parse_manager(package_manager) {
        Ok(_) => {},
        Err(e) => return Err(e),
    }
    if !package_exists(search_output, package_name) {
        return Err(AddPackageError::PackageNotFound(package_name.to_owned()));
    }
    let c = Category::from_label(category);
    config.packages.push_to(c, package_name.to_owned());
    Ok(c)
}

/// A missing category label, or one that names no bucket, always means the
/// `other` bucket; such a label is never rejected.
pub proof fn lemma_default_category(label: Option<Seq<char>>)
    requires
        label is None || (label->Some_0 != "system"@ && label->Some_0 != "development"@
            && label->Some_0 != "graphics"@),
    ensures
        category_of_label(label) == Category::Other,
{
}

} // verus!
