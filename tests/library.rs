use provisioner::commands::add_package::{self, AddPackageError, Manager};
use provisioner::commands::apply::{self, Action, ApplyError};
use provisioner::commands::init;
use provisioner::config::{Category, Config, PackageConfig};
use provisioner::system::{
    detect_desktop_env, detect_shell, detect_terminal, get_kde_widgets, get_keyboard_layout, get_system_locale,
    get_system_timezone, lang_of_lines, layout_of_lines,
};
use provisioner::text::{
    find, first_word, last_segment, same_text, second_field_of, strip_all_prefixes, text_contains, text_ends_with,
    text_starts_with, trim,
};

fn strings(v: &[&str]) -> Vec<String> {
    v.iter().map(|s| s.to_string()).collect()
}

#[test]
fn new_config_has_defaults() {
    let c = Config::new();
    assert_eq!(c.system.shell, "");
    assert_eq!(c.system.desktop_environment, "");
    assert_eq!(c.system.login_screen, "");
    assert_eq!(c.locale.language, "en_US.UTF-8");
    assert_eq!(c.locale.timezone, "UTC");
    assert_eq!(c.locale.keyboard_layout, "us");
    assert!(c.packages.system.is_empty());
    assert!(c.packages.development.is_empty());
    assert!(c.packages.graphics.is_empty());
    assert!(c.packages.other.is_empty());
    assert_eq!(c.themes.kvantum, None);
    assert_eq!(c.themes.global, "Breeze");
    assert!(c.widgets.is_empty());
}

#[test]
fn classification_priority() {
    assert_eq!(Category::classify("qt-dev-build"), Category::Development);
    assert_eq!(Category::classify("base-devel"), Category::Development);
    assert_eq!(Category::classify("cmake-build-tools"), Category::Development);
    assert_eq!(Category::classify("gtk3"), Category::System);
    assert_eq!(Category::classify("qt5-base"), Category::System);
    assert_eq!(Category::classify("gimp"), Category::Graphics);
    assert_eq!(Category::classify("inkscape"), Category::Graphics);
    assert_eq!(Category::classify("blender"), Category::Graphics);
    assert_eq!(Category::classify("gimp-qt"), Category::System);
    assert_eq!(Category::classify("htop"), Category::Other);
    assert_eq!(Category::classify(""), Category::Other);
    // matching is case-sensitive
    assert_eq!(Category::classify("GIMP"), Category::Other);
}

#[test]
fn classification_is_deterministic() {
    for name in ["qt-dev-build", "htop", "gimp", "gtk4"] {
        assert_eq!(Category::classify(name), Category::classify(name));
    }
}

#[test]
fn category_labels_fold_to_other() {
    assert_eq!(Category::from_label(None), Category::Other);
    assert_eq!(Category::from_label(Some("system")), Category::System);
    assert_eq!(Category::from_label(Some("development")), Category::Development);
    assert_eq!(Category::from_label(Some("graphics")), Category::Graphics);
    assert_eq!(Category::from_label(Some("other")), Category::Other);
    assert_eq!(Category::from_label(Some("fonts")), Category::Other);
    assert_eq!(Category::from_label(Some("System")), Category::Other);
    assert_eq!(Category::from_label(Some("")), Category::Other);
}

#[test]
fn push_to_appends_in_order() {
    let mut p = PackageConfig::empty();
    p.push_to(Category::Other, "a".to_string());
    p.push_to(Category::Other, "a".to_string());
    p.push_to(Category::Graphics, "gimp".to_string());
    assert_eq!(p.other, strings(&["a", "a"]));
    assert_eq!(p.graphics, strings(&["gimp"]));
    assert!(p.system.is_empty());
    assert!(p.development.is_empty());
}

#[test]
fn flatten_orders_buckets() {
    let p = PackageConfig {
        system: strings(&["s1", "s2"]),
        development: strings(&["d"]),
        graphics: vec![],
        other: strings(&["o"]),
    };
    assert_eq!(p.flatten(), strings(&["s1", "s2", "d", "o"]));
    assert!(PackageConfig::empty().flatten().is_empty());
}

#[test]
fn partition_is_complete() {
    let pkgs = strings(&["htop", "yay-bin", "vim", "vim", "spotify"]);
    let (ns, aux) = apply::partition_by_source(&pkgs, &vec![true, false, true, true, false]);
    assert_eq!(ns, strings(&["htop", "vim", "vim"]));
    assert_eq!(aux, strings(&["yay-bin", "spotify"]));
    assert_eq!(ns.len() + aux.len(), pkgs.len());
    let (ns, aux) = apply::partition_by_source(&vec![], &vec![]);
    assert!(ns.is_empty() && aux.is_empty());
}

fn scenario_config() -> Config {
    let mut c = Config::new();
    c.packages.system = strings(&["htop"]);
    c.packages.development = strings(&["gcc-dev-tools"]);
    c
}

#[test]
fn apply_all_sections_scenario() {
    let c = scenario_config();
    let plan = apply::run(&c, None, "/bin/bash", &vec![true, true]).unwrap();
    assert_eq!(
        plan,
        vec![
            Action::UncommentLocale("en_US.UTF-8".to_string()),
            Action::GenerateLocales,
            Action::SetTimezone("UTC".to_string()),
            Action::SetKeyboardLayout("us".to_string()),
            Action::InstallNative(strings(&["htop", "gcc-dev-tools"])),
            Action::SetGlobalTheme("Breeze".to_string()),
        ]
    );
    let plan = apply::run(&c, None, "/bin/bash", &vec![true, false]).unwrap();
    assert_eq!(plan[4], Action::InstallNative(strings(&["htop"])));
    assert_eq!(plan[5], Action::InstallAuxiliary(strings(&["gcc-dev-tools"])));
    assert_eq!(plan[6], Action::SetGlobalTheme("Breeze".to_string()));
    assert_eq!(plan.len(), 7);
}

#[test]
fn apply_single_sections() {
    let mut c = scenario_config();
    c.themes.kvantum = Some("KvArc".to_string());
    assert_eq!(
        apply::run(&c, Some("themes"), "", &vec![]).unwrap(),
        vec![Action::SetGlobalTheme("Breeze".to_string()), Action::SetKvantumTheme("KvArc".to_string())]
    );
    assert_eq!(
        apply::run(&c, Some("packages"), "", &vec![false, false]).unwrap(),
        vec![Action::InstallAuxiliary(strings(&["htop", "gcc-dev-tools"]))]
    );
    assert_eq!(apply::run(&c, Some("system"), "", &vec![]).unwrap().len(), 4);
}

#[test]
fn apply_unknown_section_fails() {
    let c = scenario_config();
    assert_eq!(
        apply::run(&c, Some("foo"), "/bin/bash", &vec![]),
        Err(ApplyError::UnknownSection("foo".to_string()))
    );
    assert_eq!(
        apply::run(&c, Some("Packages"), "/bin/bash", &vec![]),
        Err(ApplyError::UnknownSection("Packages".to_string()))
    );
    assert!(apply::needs_sources(None));
    assert!(apply::needs_sources(Some("packages")));
    assert!(!apply::needs_sources(Some("themes")));
    assert!(!apply::needs_sources(Some("foo")));
}

#[test]
fn shell_changes_only_when_different() {
    let mut c = Config::new();
    c.system.shell = "zsh".to_string();
    let plan = apply::system_actions(&c, "/usr/bin/zsh");
    assert_eq!(plan[0], Action::UncommentLocale("en_US.UTF-8".to_string()));
    let plan = apply::system_actions(&c, "/bin/bash");
    assert_eq!(plan[0], Action::ChangeShell("/bin/zsh".to_string()));
    let plan = apply::system_actions(&c, "");
    assert_eq!(plan[0], Action::ChangeShell("/bin/zsh".to_string()));
    c.locale.language = String::new();
    c.locale.timezone = String::new();
    c.locale.keyboard_layout = String::new();
    assert_eq!(apply::system_actions(&c, "/bin/zsh"), vec![]);
}

#[test]
fn failed_install_does_not_stop_the_run() {
    let native = Action::InstallNative(strings(&["htop"]));
    let aux = Action::InstallAuxiliary(strings(&["yay-bin"]));
    assert!(apply::proceeds_after(&native, false));
    assert!(apply::proceeds_after(&aux, true));
    assert!(apply::proceeds_after(&aux, false));
    assert!(!apply::proceeds_after(&Action::SetTimezone("UTC".to_string()), false));
    assert!(!apply::proceeds_after(&Action::SetGlobalTheme("Breeze".to_string()), false));
    assert!(apply::proceeds_after(&Action::GenerateLocales, true));
}

#[test]
fn locale_gen_rewrite() {
    let content = "# comment\n#en_US.UTF-8 UTF-8\n#de_DE.UTF-8 UTF-8\nen_GB.UTF-8 UTF-8";
    let once = apply::rewrite_locale_gen(content, "en_US.UTF-8");
    assert_eq!(once, "# comment\nen_US.UTF-8 UTF-8\n#de_DE.UTF-8 UTF-8\nen_GB.UTF-8 UTF-8");
    let twice = apply::rewrite_locale_gen(&once, "en_US.UTF-8");
    assert_eq!(twice, once);
    assert_eq!(apply::rewrite_locale_gen("a\r\nb\n", "x"), "a\nb");
    assert_eq!(apply::rewrite_locale_gen("", "x"), "");
}

#[test]
fn uncomment_single_lines() {
    assert_eq!(apply::uncomment_line("#en_US.UTF-8 UTF-8", "en_US"), "en_US.UTF-8 UTF-8");
    assert_eq!(apply::uncomment_line("en_US.UTF-8 UTF-8", "en_US"), "en_US.UTF-8 UTF-8");
    assert_eq!(apply::uncomment_line("#de_DE.UTF-8 UTF-8", "en_US"), "#de_DE.UTF-8 UTF-8");
    assert_eq!(apply::uncomment_line(" #en_US", "en_US"), " #en_US");
    assert_eq!(apply::uncomment_lines(&strings(&["#x", "y"]), "x"), "x\ny");
}

#[test]
fn add_package_found_goes_to_other() {
    let mut c = Config::new();
    let out = "community/neofetch 7.1.0-2\n    A CLI system information tool\n";
    let r = add_package::run("pacman", "neofetch", None, Some(out), &mut c);
    assert_eq!(r, Ok(Category::Other));
    assert_eq!(c.packages.other, strings(&["neofetch"]));
    assert!(c.packages.system.is_empty());
}

#[test]
fn add_package_with_category() {
    let mut c = Config::new();
    let out = "extra/gimp 2.10.36-1\n    GNU Image Manipulation Program\n";
    assert_eq!(add_package::run("yay", "gimp", Some("graphics"), Some(out), &mut c), Ok(Category::Graphics));
    assert_eq!(c.packages.graphics, strings(&["gimp"]));
    assert_eq!(add_package::run("yay", "gimp", Some("fonts"), Some(out), &mut c), Ok(Category::Other));
    assert_eq!(c.packages.other, strings(&["gimp"]));
}

#[test]
fn add_package_not_found_leaves_config() {
    let mut c = Config::new();
    let before = c.clone();
    let out = "extra/fastfetch 2.8.0-1\n    Like neofetch, but faster\n";
    assert_eq!(
        add_package::run("pacman", "neofetch", None, Some(out), &mut c),
        Err(AddPackageError::PackageNotFound("neofetch".to_string()))
    );
    assert_eq!(c, before);
    assert_eq!(
        add_package::run("pacman", "neofetch", None, None, &mut c),
        Err(AddPackageError::PackageNotFound("neofetch".to_string()))
    );
    assert_eq!(
        add_package::run("pacman", "neofetch", None, Some(""), &mut c),
        Err(AddPackageError::PackageNotFound("neofetch".to_string()))
    );
    assert_eq!(c, before);
}

#[test]
fn add_package_unsupported_manager() {
    let mut c = Config::new();
    let before = c.clone();
    assert_eq!(
        add_package::run("apt", "neofetch", None, Some("community/neofetch 1"), &mut c),
        Err(AddPackageError::UnsupportedManager("apt".to_string()))
    );
    assert_eq!(c, before);
    assert_eq!(add_package::parse_manager("pacman"), Ok(Manager::Pacman));
    assert_eq!(add_package::parse_manager("yay"), Ok(Manager::Yay));
    assert_eq!(
        add_package::parse_manager("Pacman"),
        Err(AddPackageError::UnsupportedManager("Pacman".to_string()))
    );
}

#[test]
fn search_line_matching() {
    assert!(add_package::line_names_package("community/neofetch 7.1.0-2", "neofetch"));
    assert!(add_package::line_names_package("  neofetch", "neofetch"));
    // a suffix match, not equality
    assert!(add_package::line_names_package("aur/python-neofetch 1.0", "neofetch"));
    assert!(!add_package::line_names_package("    A tool like neofetch", "neofetch"));
    assert!(!add_package::line_names_package("   ", "neofetch"));
    assert!(add_package::package_exists(Some("x 1\nextra/vim 9\n"), "vim"));
    assert!(!add_package::package_exists(Some("x 1\nextra/vim-plug 9\n"), "vim"));
    assert!(!add_package::package_exists(None, "vim"));
    assert!(add_package::search_lists_package(&strings(&["a", "core/b 1"]), "b"));
}

#[test]
fn init_sorts_packages() {
    let pkgs = strings(&["qt5-base", "base-devel", "gimp", "htop", "gtk3", "vim"]);
    let c = init::run(Some("zsh".to_string()), None, Some("konsole".to_string()), &pkgs);
    assert_eq!(c.system.shell, "zsh");
    assert_eq!(c.system.desktop_environment, "");
    assert_eq!(c.system.terminal, "konsole");
    assert_eq!(c.packages.system, strings(&["qt5-base", "gtk3"]));
    assert_eq!(c.packages.development, strings(&["base-devel"]));
    assert_eq!(c.packages.graphics, strings(&["gimp"]));
    assert_eq!(c.packages.other, strings(&["htop", "vim"]));
    assert_eq!(c.locale.language, "en_US.UTF-8");
    assert_eq!(c.themes.global, "Breeze");
}

#[test]
fn package_listing_parse() {
    assert_eq!(
        init::parse_package_list("htop 3.2.2-1\nbase-devel 1-1\n\n   \nvim 9.0"),
        strings(&["htop", "base-devel", "vim"])
    );
    assert!(init::parse_package_list("").is_empty());
    assert_eq!(init::categorize(&strings(&["inkscape"])).graphics, strings(&["inkscape"]));
}

#[test]
fn shell_detection() {
    assert_eq!(detect_shell(Some("/usr/bin/zsh")), Some("zsh".to_string()));
    assert_eq!(detect_shell(Some("fish")), Some("fish".to_string()));
    assert_eq!(detect_shell(Some("/bin/")), Some("".to_string()));
    assert_eq!(detect_shell(None), None);
}

#[test]
fn desktop_detection() {
    assert_eq!(detect_desktop_env(Some("KDE"), Some("plasma"), None), Some("kde".to_string()));
    assert_eq!(detect_desktop_env(None, Some("GNOME"), None), Some("gnome".to_string()));
    assert_eq!(
        detect_desktop_env(None, None, Some("user 12 /usr/bin/PlasmaShell\nuser 13 bash")),
        Some("plasma".to_string())
    );
    assert_eq!(detect_desktop_env(None, None, Some("x /usr/bin/gnome-shell")), Some("gnome".to_string()));
    assert_eq!(detect_desktop_env(None, None, Some("xfce4-session")), Some("xfce".to_string()));
    assert_eq!(detect_desktop_env(None, None, Some("bash")), None);
    assert_eq!(detect_desktop_env(None, None, None), None);
}

#[test]
fn terminal_detection() {
    assert_eq!(detect_terminal(Some("WezTerm"), Some("konsole")), Some("wezterm".to_string()));
    assert_eq!(detect_terminal(None, Some("  Konsole\n")), Some("konsole".to_string()));
    assert_eq!(detect_terminal(None, Some("kitty")), Some("kitty".to_string()));
    assert_eq!(detect_terminal(None, Some("bash")), None);
    assert_eq!(detect_terminal(None, None), None);
    assert_eq!(get_kde_widgets(), None);
}

#[test]
fn text_helpers() {
    assert!(text_contains("abcdef", "cde"));
    assert!(text_contains("abc", ""));
    assert!(!text_contains("ab", "abc"));
    assert!(text_starts_with("#x", "#"));
    assert!(!text_starts_with("x#", "#"));
    assert!(text_ends_with("community/neofetch", "neofetch"));
    assert!(!text_ends_with("neofetch-git", "neofetch"));
    assert!(same_text("a", "a"));
    assert!(!same_text("a", "ab"));
    assert_eq!(first_word("\t foo bar"), Some("foo".to_string()));
    assert_eq!(first_word(" \t\n"), None);
    assert_eq!(last_segment("a/b/c"), "c");
    assert_eq!(trim("  x y \n"), "x y");
    assert_eq!(trim("   "), "");
}

#[test]
fn locale_probe() {
    let out = "LANGUAGE=\nLANG=en_US.UTF-8\nLC_CTYPE=\"en_US.UTF-8\"\nLANG=de_DE.UTF-8";
    assert_eq!(get_system_locale(Some(out)), Some("en_US.UTF-8".to_string()));
    assert_eq!(get_system_locale(Some("LANG=LANG=C")), Some("C".to_string()));
    assert_eq!(get_system_locale(Some("LC_ALL=C")), None);
    assert_eq!(get_system_locale(None), None);
    assert_eq!(lang_of_lines(&strings(&["x", "LANG=fr_FR"])), Some("fr_FR".to_string()));
}

#[test]
fn timezone_probe() {
    assert_eq!(
        get_system_timezone(Some("/usr/share/zoneinfo/Europe/Berlin")),
        Some("Europe/Berlin".to_string())
    );
    assert_eq!(get_system_timezone(Some("../zoneinfo/UTC")), Some("UTC".to_string()));
    assert_eq!(get_system_timezone(Some("/a/zoneinfo/B/zoneinfo/C")), Some("B".to_string()));
    assert_eq!(get_system_timezone(Some("/etc/UTC")), None);
    assert_eq!(get_system_timezone(None), None);
}

#[test]
fn keyboard_probe() {
    let out = "rules:      evdev\nmodel:      pc105\nlayout:     de\nvariant:    nodeadkeys";
    assert_eq!(get_keyboard_layout(Some(out)), Some("de".to_string()));
    assert_eq!(get_keyboard_layout(Some("layout:  us,de  \n")), Some("us,de".to_string()));
    assert_eq!(get_keyboard_layout(Some("model: pc105")), None);
    assert_eq!(get_keyboard_layout(None), None);
    assert_eq!(layout_of_lines(&strings(&["layout:fr:x"])), Some("fr".to_string()));
}

#[test]
fn field_and_prefix_helpers() {
    assert_eq!(find("abcabc", "bc", 0), 1);
    assert_eq!(find("abcabc", "bc", 2), 4);
    assert_eq!(find("abc", "x", 0), 3);
    assert_eq!(second_field_of("a:b:c", ":"), Some("b".to_string()));
    assert_eq!(second_field_of("a:", ":"), Some("".to_string()));
    assert_eq!(second_field_of("abc", ":"), None);
    assert_eq!(strip_all_prefixes("ababx", "ab"), "x");
    assert_eq!(strip_all_prefixes("xab", "ab"), "xab");
}
