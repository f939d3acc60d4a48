use vstd::prelude::*;
use crate::text::{has_infix, same_text, text_contains};

verus! {

/// The named package buckets of a descriptor.
#[derive(Clone, Copy, Debug, PartialEq, Eq, Structural)]
pub enum Category {
    System,
    Development,
    Graphics,
    Other,
}

/// Machine-level settings; an empty string means "not managed".
#[derive(Clone, Debug, PartialEq, Eq)]
pub struct SystemConfig {
    pub shell: String,
    pub desktop_environment: String,
    pub terminal: String,
    pub terminal_font: String,
    pub icons: String,
    pub theme: String,
    pub splash_screen: String,
    pub login_screen: String,
}

#[derive(Clone, Debug, PartialEq, Eq)]
pub struct LocaleConfig {
    pub language: String,
    pub timezone: String,
    pub keyboard_layout: String,
}

/// Package names by bucket, each bucket in insertion order.
#[derive(Clone, Debug, PartialEq, Eq)]
pub struct PackageConfig {
    pub system: Vec<String>,
    pub development: Vec<String>,
    pub graphics: Vec<String>,
    pub other: Vec<String>,
}

#[derive(Clone, Debug, PartialEq, Eq)]
pub struct ThemeConfig {
    pub kvantum: Option<String>,
    pub global: String,
}

/// The provisioning descriptor.
#[derive(Clone, Debug, PartialEq, Eq)]
pub struct Config {
    pub system: SystemConfig,
    pub locale: LocaleConfig,
    pub packages: PackageConfig,
    pub themes: ThemeConfig,
    pub widgets: Vec<String>,
}

/// The bucket that a package name is sorted into: the first of these that
/// holds wins.
pub open spec fn category_of(name: Seq<char>) -> Category {
    if has_infix(name, "dev"@) || has_infix(name, "build"@) {
        Category::Development
    } else if has_infix(name, "gtk"@) || has_infix(name, "qt"@) {
        Category::System
    } else if has_infix(name, "gimp"@) || has_infix(name, "inkscape"@) || has_infix(
        name,
        "blender"@,
    ) {
        Category::Graphics
    } else {
        Category::Other
    }
}

/// The bucket that a caller-supplied label names; no label, or one that is
/// not a bucket's name, means `Other`.
pub open spec fn category_of_label(label: Option<Seq<char>>) -> Category {
    match label {
        Some(l) => if l == "system"@ {
            Category::System
        } else if l == "development"@ {
            Category::Development
        } else if l == "graphics"@ {
            Category::Graphics
        } else {
            Category::Other
        },
        None => Category::Other,
    }
}

impl Category {
    /// The bucket for a package name, by the substrings it contains.
    pub fn classify(name: &str) -> (r: Category)
        ensures
            r == category_of(name@),
    {
        if text_contains(name, "dev") || text_contains(name, "build") {
            Category::Development
        } else if text_contains(name, "gtk") || text_contains(name, "qt") {
            Category::System
        } else if text_contains(name, "gimp") || text_contains(name, "inkscape") || text_contains(
            name,
            "blender",
        ) {
            Category::Graphics
        } else {
            Category::Other
        }
    }

    /// The bucket a label names, folding anything unknown into `Other`.
    pub fn from_label(label: Option<&str>) -> (r: Category)
        ensures
            r == category_of_label(label.deep_view()),
    {
        match label {
            Some(l) => if same_text(l, "system") {
                Category::System
            } else if same_text(l, "development") {
                Category::Development
            } else if same_text(l, "graphics") {
                Category::Graphics
            } else {
                Category::Other
            },
            None => Category::Other,
        }
    }
}

impl PackageConfig {
    pub open spec fn bucket(&self, c: Category) -> Seq<Seq<char>> {
        match c {
            Category::System => self.system.deep_view(),
            Category::Development => self.development.deep_view(),
            Category::Graphics => self.graphics.deep_view(),
            Category::Other => self.other.deep_view(),
        }
    }

    /// All package names: the buckets one after another in the order
    /// system, development, graphics, other.
    pub open spec fn all(&self) -> Seq<Seq<char>> {
        self.system.deep_view() + self.development.deep_view() + self.graphics.deep_view()
            + self.other.deep_view()
    }

    /// A manifest with every bucket empty.
    pub fn empty() -> (r: PackageConfig)
        ensures
            forall|c: Category| r.bucket(c) == Seq::<Seq<char>>::empty(),
    {
        let r = PackageConfig {
            system: Vec::new(),
            development: Vec::new(),
            graphics: Vec::new(),
            other: Vec::new(),
        };
        assert(r.system.deep_view() =~= Seq::<Seq<char>>::empty());
        assert(r.development.deep_view() =~= Seq::<Seq<char>>::empty());
        assert(r.graphics.deep_view() =~= Seq::<Seq<char>>::empty());
        assert(r.other.deep_view() =~= Seq::<Seq<char>>::empty());
        r
    }

    /// Appends `name` to bucket `c`; the other buckets stay as they were.
    pub fn push_to(&mut self, c: Category, name: String)
        ensures
            final(self).bucket(c) == old(self).bucket(c).push(name@),
            forall|d: Category| d != c ==> final(self).bucket(d) == old(self).bucket(d),
    {
        let ghost n = name@;
        match c {
            Category::System => {
                self.system.push(name);
                assert(self.system.deep_view() =~= old(self).system.deep_view().push(n));
            },
            Category::Development => {
                self.development.push(name);
                assert(self.development.deep_view() =~= old(self).development.deep_view().push(
                    n,
                ));
            },
            Category::Graphics => {
                self.graphics.push(name);
                assert(self.graphics.deep_view() =~= old(self).graphics.deep_view().push(n));
            },
            Category::Other => {
                self.other.push(name);
                assert(self.other.deep_view() =~= old(self).other.deep_view().push(n));
            },
        }
    }

    /// Every package name, bucket after bucket.
    pub fn flatten(&self) -> (r: Vec<String>)
        ensures
            r.deep_view() == self.all(),
    {
        let mut r: Vec<String> = Vec::new();
        append_all(&mut r, &self.system);
        append_all(&mut r, &self.development);
        append_all(&mut r, &self.graphics);
        append_all(&mut r, &self.other);
        r
    }
}

/// Appends clones of `items` to `out`.
pub fn append_all(out: &mut Vec<String>, items: &Vec<String>)
    ensures
        final(out).deep_view() == old(out).deep_view() + items.deep_view(),
{
    let ghost start = out.deep_view();
    let mut i: usize = 0;
    while i < items.len()
        invariant
            i <= items.len(),
            out.deep_view() == start + items.deep_view().take(i as int),
        decreases items.len() - i,
    {
        let item = items[i].clone();
        let ghost before = out.deep_view();
        out.push(item);
        assert(out.deep_view() =~= before.push(items[i as int]@));
        assert(items.deep_view().take(i + 1) =~= items.deep_view().take(i as int).push(
            items[i as int]@,
        ));
        assert(out.deep_view() =~= start + items.deep_view().take(i + 1));
        i += 1;
    }
    assert(items.deep_view().take(i as int) =~= items.deep_view());
}

impl Config {
    /// A fresh descriptor: every system setting empty, locale `en_US.UTF-8`
    /// / `UTC` / `us`, no packages, global theme `Breeze`, no secondary theme
    /// and no widgets.
    pub fn new() -> (r: Config)
        ensures
            r.system.shell@ == Seq::<char>::empty(),
            r.system.desktop_environment@ == Seq::<char>::empty(),
            r.system.terminal@ == Seq::<char>::empty(),
            r.system.terminal_font@ == Seq::<char>::empty(),
            r.system.icons@ == Seq::<char>::empty(),
            r.system.theme@ == Seq::<char>::empty(),
            r.system.splash_screen@ == Seq::<char>::empty(),
            r.system.login_screen@ == Seq::<char>::empty(),
            r.locale.language@ == "en_US.UTF-8"@,
            r.locale.timezone@ == "UTC"@,
            r.locale.keyboard_layout@ == "us"@,
            forall|c: Category| r.packages.bucket(c) == Seq::<Seq<char>>::empty(),
            r.themes.kvantum.is_none(),
            r.themes.global@ == "Breeze"@,
            r.widgets@.len() == 0,
    {
        Config {
            system: SystemConfig {
                shell: String::new(),
                desktop_environment: String::new(),
                terminal: String::new(),
                terminal_font: String::new(),
                icons: String::new(),
                theme: String::new(),
                splash_screen: String::new(),
                login_screen: String::new(),
            },
            locale: LocaleConfig {
                language: String::from_str("en_US.UTF-8"),
                timezone: String::from_str("UTC"),
                keyboard_layout: String::from_str("us"),
            },
            packages: PackageConfig::empty(),
            themes: ThemeConfig { kvantum: None, global: String::from_str("Breeze") },
            widgets: Vec::new(),
        }
    }
}

} // verus!
