use vstd::prelude::*;
use crate::config::{Category, Config, PackageConfig, category_of};
use crate::text::{first_word, first_word_of, lines_of, split_lines};

verus! {

/// The names of `p` that classification puts into bucket `c`, in order.
pub open spec fn sorted_into(p: Seq<Seq<char>>, c: Category) -> Seq<Seq<char>>
    decreases p.len(),
{
    if p.len() == 0 {
        Seq::empty()
    } else if category_of(p.last()) == c {
        sorted_into(p.drop_last(), c).push(p.last())
    } else {
        sorted_into(p.drop_last(), c)
    }
}

/// The package names of a package listing: the first word of each line, in
/// order, skipping lines that have none.
pub open spec fn listed_names(lines: Seq<Seq<char>>) -> Seq<Seq<char>>
    decreases lines.len(),
{
    if lines.len() == 0 {
        Seq::empty()
    } else {
        match first_word_of(lines.last()) {
            Some(w) => listed_names(lines.drop_last()).push(w),
            None => listed_names(lines.drop_last()),
        }
    }
}

/// The package names that an installed-package listing prints.
pub fn parse_package_list(output: &str) -> (r: Vec<String>)
    ensures
        r.deep_view() == listed_names(lines_of(output@)),
{
    let lines = split_lines(output);
    let ghost l = lines.deep_view();
    let mut r: Vec<String> = Vec::new();
    let mut i: usize = 0;
    assert(l.take(0) =~= Seq::<Seq<char>>::empty());
    assert(r.deep_view() =~= Seq::<Seq<char>>::empty());
    while i < lines.len()
        invariant
            i <= lines.len(),
            l == lines.deep_view(),
            r.deep_view() == listed_names(l.take(i as int)),
        decreases lines.len() - i,
    {
        assert(l.take(i + 1).drop_last() =~= l.take(i as int));
        assert(l.take(i + 1).last() == lines[i as int]@);
        match first_word(lines[i].as_str()) {
            Some(w) => {
                let ghost before = r.deep_view();
                let ghost wv = w@;
                r.push(w);
                assert(r.deep_view() =~= before.push(wv));
            },
            None => {},
        }
        i += 1;
    }
    assert(l.take(i as int) =~= l);
    r
}

/// Sorts each name of `packages` into the bucket that classification gives
/// it, keeping their order.
pub fn categorize(packages: &Vec<String>) -> (r: PackageConfig)
    ensures
        forall|c: Category| #[trigger] r.bucket(c) == sorted_into(packages.deep_view(), c),
{
    let ghost p = packages.deep_view();
    let mut r = PackageConfig::empty();
    let mut i: usize = 0;
    assert(p.take(0) =~= Seq::<Seq<char>>::empty());
    while i < packages.len()
        invariant
            i <= packages.len(),
            p == packages.deep_view(),
            forall|c: Category| #[trigger] r.bucket(c) == sorted_into(p.take(i as int), c),
        decreases packages.len() - i,
    {
        assert(p.take(i + 1).drop_last() =~= p.take(i as int));
        assert(p.take(i + 1).last() == packages[i as int]@);
        let c = Category::classify(packages[i].as_str());
        r.push_to(c, packages[i].clone());
        i += 1;
    }
    assert(p.take(i as int) =~= p);
    r
}

/// A fresh descriptor for the probed machine: the shell, desktop
/// environment and terminal where they were detected (empty where not), and
/// `packages` sorted into buckets; all else as `Config::new` has it.
pub fn run(
    shell: Option<String>,
    desktop_environment: Option<String>,
    terminal: Option<String>,
    packages: &Vec<String>,
) -> (r: Config)
    ensures
        r.system.shell@ == match shell {
            Some(s) => s@,
            None => Seq::<char>::empty(),
        },
        r.system.desktop_environment@ == match desktop_environment {
            Some(s) => s@,
            None => Seq::<char>::empty(),
        },
        r.system.terminal@ == match terminal {
            Some(s) => s@,
            None => Seq::<char>::empty(),
        },
        r.system.terminal_font@ == Seq::<char>::empty(),
        r.system.icons@ == Seq::<char>::empty(),
        r.system.theme@ == Seq::<char>::empty(),
        r.system.splash_screen@ == Seq::<char>::empty(),
        r.system.login_screen@ == Seq::<char>::empty(),
        r.locale.language@ == "en_US.UTF-8"@,
        r.locale.timezone@ == "UTC"@,
        r.locale.keyboard_layout@ == "us"@,
        forall|c: Category| #[trigger] r.packages.bucket(c) == sorted_into(packages.deep_view(), c),
        r.themes.kvantum.is_none(),
        r.themes.global@ == "Breeze"@,
        r.widgets@.len() == 0,
{
    let mut config = Config::new();
    match shell {
        Some(s) => config.system.shell = s,
        None => {},
    }
    match desktop_environment {
        Some(d) => config.system.desktop_environment = d,
        None => {},
    }
    match terminal {
        Some(t) => config.system.terminal = t,
        None => {},
    }
    config.packages = categorize(packages);
    config
}

/// Classification gives every name exactly one bucket, by the first of
/// these that holds: `dev` or `build` in the name, then `gtk` or `qt`, then
/// `gimp`, `inkscape` or `blender`; else `other`.
pub proof fn lemma_classification_priority(name: Seq<char>)
    ensures
        (crate::text::has_infix(name, "dev"@) || crate::text::has_infix(name, "build"@))
            ==> category_of(name) == Category::Development,
        !(crate::text::has_infix(name, "dev"@) || crate::text::has_infix(name, "build"@)) && (
        crate::text::has_infix(name, "gtk"@) || crate::text::has_infix(name, "qt"@))
            ==> category_of(name) == Category::System,
        category_of(name) == Category::Graphics ==> (crate::text::has_infix(name, "gimp"@)
            || crate::text::has_infix(name, "inkscape"@) || crate::text::has_infix(
            name,
            "blender"@,
        )),
        forall|p: Seq<Seq<char>>|
            #![trigger sorted_into(p, category_of(name))]
            sorted_into(p.push(name), category_of(name)) == sorted_into(p, category_of(name)).push(
                name,
            ),
        forall|p: Seq<Seq<char>>, d: Category|
            d != category_of(name) ==> #[trigger] sorted_into(p.push(name), d) == sorted_into(p, d),
{
    assert forall|p: Seq<Seq<char>>|
        #![trigger sorted_into(p, category_of(name))]
        sorted_into(p.push(name), category_of(name)) == sorted_into(p, category_of(name)).push(
            name,
        ) by {
        assert(p.push(name).drop_last() =~= p);
    }
    assert forall|p: Seq<Seq<char>>, d: Category|
        d != category_of(name) implies #[trigger] sorted_into(p.push(name), d) == sorted_into(
            p,
            d,
        ) by {
        assert(p.push(name).drop_last() =~= p);
    }
}

} // verus!
