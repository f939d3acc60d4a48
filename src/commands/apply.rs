use vstd::prelude::*;
use vstd::multiset::Multiset;
use crate::config::{Config, PackageConfig};
use crate::text::{has_infix, last_segment, last_segment_of, lines_of, same_text, split_lines, text_contains};

verus! {

broadcast use vstd::seq_lib::group_to_multiset_ensures;

/// One system-changing step of a reconciliation run.
#[derive(Clone, Debug, PartialEq, Eq)]
pub enum Action {
    /// Make `/bin/<shell>`, given whole, the login shell.
    ChangeShell(String),
    /// Uncomment the locale-generation lines that name this language.
    UncommentLocale(String),
    /// Regenerate the locales.
    GenerateLocales,
    SetTimezone(String),
    SetKeyboardLayout(String),
    /// One batch install from the native repository.
    InstallNative(Vec<String>),
    /// One batch install through the auxiliary-repository helper.
    InstallAuxiliary(Vec<String>),
    /// Apply a look-and-feel package.
    SetGlobalTheme(String),
    /// Select a theme of the secondary theme engine.
    SetKvantumTheme(String),
}

/// What an `Action` stands for, in mathematical terms.
pub enum ActionView {
    ChangeShell(Seq<char>),
    UncommentLocale(Seq<char>),
    GenerateLocales,
    SetTimezone(Seq<char>),
    SetKeyboardLayout(Seq<char>),
    InstallNative(Seq<Seq<char>>),
    InstallAuxiliary(Seq<Seq<char>>),
    SetGlobalTheme(Seq<char>),
    SetKvantumTheme(Seq<char>),
}

impl ActionView {
    /// A failed batch install is reported and the run goes on; any other
    /// failed step ends the run.
    pub open spec fn tolerates_failure(self) -> bool {
        self is InstallNative || self is InstallAuxiliary
    }
}

impl View for Action {
    type V = ActionView;

    open spec fn view(&self) -> ActionView {
        match self {
            Action::ChangeShell(s) => ActionView::ChangeShell(s@),
            Action::UncommentLocale(s) => ActionView::UncommentLocale(s@),
            Action::GenerateLocales => ActionView::GenerateLocales,
            Action::SetTimezone(s) => ActionView::SetTimezone(s@),
            Action::SetKeyboardLayout(s) => ActionView::SetKeyboardLayout(s@),
            Action::InstallNative(v) => ActionView::InstallNative(v.deep_view()),
            Action::InstallAuxiliary(v) => ActionView::InstallAuxiliary(v.deep_view()),
            Action::SetGlobalTheme(s) => ActionView::SetGlobalTheme(s@),
            Action::SetKvantumTheme(s) => ActionView::SetKvantumTheme(s@),
        }
    }
}

#[derive(Clone, Debug, PartialEq, Eq)]
pub enum ApplyError {
    /// The requested section is none of `system`, `packages`, `themes`.
    UnknownSection(String),
}

pub open spec fn views(v: Seq<Action>) -> Seq<ActionView> {
    v.map_values(|a: Action| a@)
}

/// The packages of `p` whose flag in `flags` (by position) is `want`, in order.
pub open spec fn select(p: Seq<Seq<char>>, flags: Seq<bool>, want: bool) -> Seq<Seq<char>>
    decreases p.len(),
{
    if p.len() == 0 {
        Seq::empty()
    } else {
        let rest = select(p.drop_last(), flags, want);
        if flags[p.len() - 1] == want {
            rest.push(p.last())
        } else {
            rest
        }
    }
}

/// Steps of the system and locale section, for a login shell at path
/// `current_shell`.
pub open spec fn system_plan(c: Config, current_shell: Seq<char>) -> Seq<ActionView> {
    let shell = c.system.shell@;
    let lang = c.locale.language@;
    let tz = c.locale.timezone@;
    let kb = c.locale.keyboard_layout@;
    (if shell.len() > 0 && last_segment_of(current_shell) != shell {
        seq![ActionView::ChangeShell("/bin/"@ + shell)]
    } else {
        seq![]
    }) + (if lang.len() > 0 {
        seq![ActionView::UncommentLocale(lang), ActionView::GenerateLocales]
    } else {
        seq![]
    }) + (if tz.len() > 0 {
        seq![ActionView::SetTimezone(tz)]
    } else {
        seq![]
    }) + (if kb.len() > 0 {
        seq![ActionView::SetKeyboardLayout(kb)]
    } else {
        seq![]
    })
}

/// Steps of the package section, where `native` tells by position in the
/// flattened manifest which packages the native repository has.
pub open spec fn package_plan(p: PackageConfig, native: Seq<bool>) -> Seq<ActionView> {
    let ns = select(p.all(), native, true);
    let aux = select(p.all(), native, false);
    (if ns.len() > 0 {
        seq![ActionView::InstallNative(ns)]
    } else {
        seq![]
    }) + (if aux.len() > 0 {
        seq![ActionView::InstallAuxiliary(aux)]
    } else {
        seq![]
    })
}

/// Steps of the theme section.
pub open spec fn theme_plan(c: Config) -> Seq<ActionView> {
    (if c.themes.global@.len() > 0 {
        seq![ActionView::SetGlobalTheme(c.themes.global@)]
    } else {
        seq![]
    }) + (match c.themes.kvantum {
        Some(k) => seq![ActionView::SetKvantumTheme(k@)],
        None => seq![],
    })
}

/// Whether a run is limited to no section or to the package section, so that
/// the sources of the packages must be known.
pub open spec fn wants_packages(section: Option<Seq<char>>) -> bool {
    section is None || section == Some("packages"@)
}

/// Whether a run whose steps gave `results` (true: succeeded) goes through
/// every step of `plan`.
pub open spec fn runs_to_end(plan: Seq<ActionView>, results: Seq<bool>) -> bool {
    forall|i: int| 0 <= i < plan.len() ==> results[i] || (#[trigger] plan[i]).tolerates_failure()
}

fn push_action(v: &mut Vec<Action>, a: Action)
    ensures
        views(final(v)@) == views(old(v)@).push(a@),
{
    v.push(a);
    assert(views(v@) =~= views(old(v)@).push(a@));
}

/// Splits `packages` by source: the first list holds those whose flag is
/// true (native repository), the second the rest, both in input order.
pub fn partition_by_source(packages: &Vec<String>, native: &Vec<bool>) -> (r: (
    Vec<String>,
    Vec<String>,
))
    requires
        native@.len() == packages@.len(),
    ensures
        r.0.deep_view() == select(packages.deep_view(), native@, true),
        r.1.deep_view() == select(packages.deep_view(), native@, false),
{
    let ghost p = packages.deep_view();
    let mut ns: Vec<String> = Vec::new();
    let mut aux: Vec<String> = Vec::new();
    let mut i: usize = 0;
    assert(p.take(0) =~= Seq::<Seq<char>>::empty());
    assert(ns.deep_view() =~= Seq::<Seq<char>>::empty());
    assert(aux.deep_view() =~= Seq::<Seq<char>>::empty());
    while i < packages.len()
        invariant
            i <= packages.len(),
            native@.len() == packages@.len(),
            p == packages.deep_view(),
            ns.deep_view() == select(p.take(i as int), native@, true),
            aux.deep_view() == select(p.take(i as int), native@, false),
        decreases packages.len() - i,
    {
        let ghost q = p.take(i + 1);
        assert(q.drop_last() =~= p.take(i as int));
        assert(q.last() == packages[i as int]@);
        let item = packages[i].clone();
        if native[i] {
            let ghost before = ns.deep_view();
            ns.push(item);
            assert(ns.deep_view() =~= before.push(packages[i as int]@));
        } else {
            let ghost before = aux.deep_view();
            aux.push(item);
            assert(aux.deep_view() =~= before.push(packages[i as int]@));
        }
        i += 1;
    }
    assert(p.take(i as int) =~= p);
    (ns, aux)
}

/// The steps of the system and locale section.
pub fn system_actions(config: &Config, current_shell: &str) -> (r: Vec<Action>)
    ensures
        views(r@) == system_plan(*config, current_shell@),
{
    let mut r: Vec<Action> = Vec::new();
    let ghost s0 = views(r@);
    if config.system.shell.unicode_len() > 0 {
        let seg = last_segment(current_shell);
        if !same_text(seg.as_str(), config.system.shell.as_str()) {
            let path = String::from_str("/bin/").concat(config.system.shell.as_str());
            push_action(&mut r, Action::ChangeShell(path));
        }
    }
    let ghost s1 = views(r@);
    if config.locale.language.unicode_len() > 0 {
        push_action(&mut r, Action::UncommentLocale(config.locale.language.clone()));
        push_action(&mut r, Action::GenerateLocales);
    }
    let ghost s2 = views(r@);
    if config.locale.timezone.unicode_len() > 0 {
        push_action(&mut r, Action::SetTimezone(config.locale.timezone.clone()));
    }
    let ghost s3 = views(r@);
    if config.locale.keyboard_layout.unicode_len() > 0 {
        push_action(&mut r, Action::SetKeyboardLayout(config.locale.keyboard_layout.clone()));
    }
    assert(s0 =~= Seq::<ActionView>::empty());
    assert(views(r@) =~= system_plan(*config, current_shell@));
    r
}

/// The steps of the package section: one batch install per non-empty source.
pub fn package_actions(packages: &PackageConfig, native: &Vec<bool>) -> (r: Vec<Action>)
    requires
        native@.len() == packages.all().len(),
    ensures
        views(r@) == package_plan(*packages, native@),
{
    let all = packages.flatten();
    let (ns, aux) = partition_by_source(&all, native);
    let mut r: Vec<Action> = Vec::new();
    assert(views(r@) =~= Seq::<ActionView>::empty());
    if ns.len() > 0 {
        push_action(&mut r, Action::InstallNative(ns));
    }
    if aux.len() > 0 {
        push_action(&mut r, Action::InstallAuxiliary(aux));
    }
    assert(views(r@) =~= package_plan(*packages, native@));
    r
}

/// The steps of the theme section.
pub fn theme_actions(config: &Config) -> (r: Vec<Action>)
    ensures
        views(r@) == theme_plan(*config),
{
    let mut r: Vec<Action> = Vec::new();
    assert(views(r@) =~= Seq::<ActionView>::empty());
    if config.themes.global.unicode_len() > 0 {
        push_action(&mut r, Action::SetGlobalTheme(config.themes.global.clone()));
    }
    match &config.themes.kvantum {
        Some(k) => push_action(&mut r, Action::SetKvantumTheme(k.clone())),
        None => {},
    }
    assert(views(r@) =~= theme_plan(*config));
    r
}

/// Whether a run limited to `section` needs to know the packages' sources.
pub fn needs_sources(section: Option<&str>) -> (r: bool)
    ensures
        r == wants_packages(section.deep_view()),
{
    match section {
        None => true,
        Some(s) => same_text(s, "packages"),
    }
}

/// Whether a run goes on after `action` ended (`succeeded` or not).
pub fn proceeds_after(action: &Action, succeeded: bool) -> (r: bool)
    ensures
        r == (succeeded || action@.tolerates_failure()),
{
    if succeeded {
        return true;
    }
    match action {
        Action::InstallNative(_) => true,
        Action::InstallAuxiliary(_) => true,
        _ => false,
    }
}

/// The steps that reconcile the machine with `config`: those of `section`
/// only, or of the system, package and theme sections in turn where no
/// section is named. An unknown section is an error, and nothing is done.
/// `current_shell` is the path of the login shell; `native` tells by
/// position in the flattened manifest which packages the native repository
/// has, and matters only where packages are applied.
pub fn run(config: &Config, section: Option<&str>, current_shell: &str, native: &Vec<bool>) -> (r:
    Result<Vec<Action>, ApplyError>)
    requires
        wants_packages(section.deep_view()) ==> native@.len() == config.packages.all().len(),
    ensures
        match section.deep_view() {
            None => r is Ok && views(r->Ok_0@) == system_plan(*config, current_shell@)
                + package_plan(config.packages, native@) + theme_plan(*config),
            Some(s) => if s == "system"@ {
                r is Ok && views(r->Ok_0@) == system_plan(*config, current_shell@)
            } else if s == "packages"@ {
                r is Ok && views(r->Ok_0@) == package_plan(config.packages, native@)
            } else if s == "themes"@ {
                r is Ok && views(r->Ok_0@) == theme_plan(*config)
            } else {
                r matches Err(ApplyError::UnknownSection(e)) && e@ == s
            },
        },
{
    match section {
        None => {
            let mut r = system_actions(config, current_shell);
            let mut p = package_actions(&config.packages, native);
            let mut t = theme_actions(config);
            let ghost (a, b, c) = (r@, p@, t@);
            r.append(&mut p);
            r.append(&mut t);
            assert(views(r@) =~= views(a) + views(b) + views(c));
            Ok(r)
        },
        Some(s) => {
            if same_text(s, "system") {
                Ok(system_actions(config, current_shell))
            } else if same_text(s, "packages") {
                Ok(package_actions(&config.packages, native))
            } else if same_text(s, "themes") {
                Ok(theme_actions(config))
            } else {
                Err(ApplyError::UnknownSection(s.to_owned()))
            }
        },
    }
}

/// Every package of the input lands in exactly one of the two source
/// partitions: together they hold each name as often as the input does.
pub proof fn lemma_partition_complete(p: Seq<Seq<char>>, flags: Seq<bool>)
    requires
        flags.len() == p.len(),
    ensures
        select(p, flags, true).to_multiset().add(select(p, flags, false).to_multiset())
            == p.to_multiset(),
        select(p, flags, true).len() + select(p, flags, false).len() == p.len(),
{
    lemma_partition_complete_prefix(p, flags);
}

proof fn lemma_partition_complete_prefix(p: Seq<Seq<char>>, flags: Seq<bool>)
    requires
        flags.len() >= p.len(),
    ensures
        select(p, flags, true).to_multiset().add(select(p, flags, false).to_multiset())
            == p.to_multiset(),
        select(p, flags, true).len() + select(p, flags, false).len() == p.len(),
    decreases p.len(),
{
    if p.len() == 0 {
        assert(p.to_multiset() =~= Multiset::empty());
        assert(select(p, flags, true).to_multiset() =~= Multiset::empty());
        assert(select(p, flags, false).to_multiset() =~= Multiset::empty());
    } else {
        let q = p.drop_last();
        lemma_partition_complete_prefix(q, flags);
        assert(q.push(p.last()) =~= p);
        assert(select(p, flags, true).to_multiset().add(select(p, flags, false).to_multiset())
            =~= q.to_multiset().insert(p.last()));
    }
}

/// A failed batch install never stops the package section: whatever the two
/// installs return, both are attempted, and the run goes to its end.
pub proof fn lemma_package_failures_tolerated(
    p: PackageConfig,
    native: Seq<bool>,
    results: Seq<bool>,
)
    requires
        native.len() == p.all().len(),
    ensures
        runs_to_end(package_plan(p, native), results),
        select(p.all(), native, true).len() > 0 ==> package_plan(p, native).contains(
            ActionView::InstallNative(select(p.all(), native, true)),
        ),
        select(p.all(), native, false).len() > 0 ==> package_plan(p, native).contains(
            ActionView::InstallAuxiliary(select(p.all(), native, false)),
        ),
{
    let plan = package_plan(p, native);
    let ns = select(p.all(), native, true);
    let aux = select(p.all(), native, false);
    if ns.len() > 0 {
        assert(plan[0] == ActionView::InstallNative(ns));
    }
    if aux.len() > 0 {
        assert(plan[plan.len() - 1] == ActionView::InstallAuxiliary(aux));
    }
}

/// A line of the locale-generation manifest after the language `lang` is
/// enabled: a commented line that names `lang` loses its leading `#`.
pub open spec fn uncommented(line: Seq<char>, lang: Seq<char>) -> Seq<char> {
    if line.len() > 0 && line[0] == '#' && has_infix(line, lang) {
        line.drop_first()
    } else {
        line
    }
}

/// Lines joined by `\n`, with no terminator after the last.
pub open spec fn join_lines(ls: Seq<Seq<char>>) -> Seq<char>
    decreases ls.len(),
{
    if ls.len() == 0 {
        Seq::empty()
    } else if ls.len() == 1 {
        ls[0]
    } else {
        join_lines(ls.drop_last()) + seq!['\n'] + ls.last()
    }
}

/// The locale-generation manifest `content` after the language `lang` is
/// enabled.
pub open spec fn rewritten_locale_gen(content: Seq<char>, lang: Seq<char>) -> Seq<char> {
    join_lines(lines_of(content).map_values(|l: Seq<char>| uncommented(l, lang)))
}

/// One line of the locale-generation manifest after `language` is enabled.
pub fn uncomment_line(line: &str, language: &str) -> (r: String)
    ensures
        r@ == uncommented(line@, language@),
{
    let n = line.unicode_len();
    if n > 0 && line.get_char(0) == '#' && text_contains(line, language) {
        assert(line@.subrange(1, n as int) =~= line@.drop_first());
        line.substring_char(1, n).to_owned()
    } else {
        line.to_owned()
    }
}

/// Each line enabled for `language`, joined by `\n`.
pub fn uncomment_lines(lines: &Vec<String>, language: &str) -> (r: String)
    ensures
        r@ == join_lines(lines.deep_view().map_values(|l: Seq<char>| uncommented(l, language@))),
{
    let ghost t = lines.deep_view().map_values(|l: Seq<char>| uncommented(l, language@));
    let mut r = String::new();
    let mut i: usize = 0;
    proof {
        reveal_strlit("\n");
    }
    assert(t.take(0) =~= Seq::<Seq<char>>::empty());
    while i < lines.len()
        invariant
            i <= lines.len(),
            t == lines.deep_view().map_values(|l: Seq<char>| uncommented(l, language@)),
            r@ == join_lines(t.take(i as int)),
            "\n"@ == seq!['\n'],
        decreases lines.len() - i,
    {
        let line = uncomment_line(lines[i].as_str(), language);
        assert(t.take(i + 1).drop_last() =~= t.take(i as int));
        if i > 0 {
            r.append("\n");
        }
        r.append(line.as_str());
        if i == 0 {
            assert(r@ =~= join_lines(t.take(1)));
        }
        i += 1;
    }
    assert(t.take(i as int) =~= t);
    r
}

/// The locale-generation manifest `content` with the commented lines that
/// name `language` enabled, and every other line as it was.
pub fn rewrite_locale_gen(content: &str, language: &str) -> (r: String)
    ensures
        r@ == rewritten_locale_gen(content@, language@),
{
    let lines = split_lines(content);
    uncomment_lines(&lines, language)
}

/// A line that is already active is left as it is, however often the
/// language is enabled.
pub proof fn lemma_active_line_kept(line: Seq<char>, lang: Seq<char>)
    requires
        !(line.len() > 0 && line[0] == '#'),
    ensures
        uncommented(line, lang) == line,
        uncommented(uncommented(line, lang), lang) == uncommented(line, lang),
{
}

} // verus!
