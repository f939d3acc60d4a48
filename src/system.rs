use vstd::prelude::*;
use crate::text::{
    has_infix, has_prefix, last_segment, last_segment_of, lines_of, lower_of, lowercase, second_field,
    second_field_of, split_lines, strip_all_prefixes, strip_prefixes, text_contains, text_starts_with, trim,
    trimmed,
};

verus! {

/// The shell named by the login shell path, if one is set.
pub open spec fn shell_from(shell_path: Option<Seq<char>>) -> Option<Seq<char>> {
    match shell_path {
        Some(p) => Some(last_segment_of(p)),
        None => None,
    }
}

/// The desktop environment that a process listing, lower-cased, shows.
pub open spec fn desktop_in(processes: Seq<char>) -> Option<Seq<char>> {
    if has_infix(processes, "plasma"@) {
        Some("plasma"@)
    } else if has_infix(processes, "gnome-shell"@) {
        Some("gnome"@)
    } else if has_infix(processes, "xfce"@) {
        Some("xfce"@)
    } else {
        None
    }
}

/// The desktop environment: the current-desktop signal, else the session
/// signal, both lower-cased, else what the process listing shows.
pub open spec fn desktop_from(
    current_desktop: Option<Seq<char>>,
    desktop_session: Option<Seq<char>>,
    processes: Option<Seq<char>>,
) -> Option<Seq<char>> {
    match current_desktop {
        Some(d) => Some(lower_of(d)),
        None => match desktop_session {
            Some(s) => Some(lower_of(s)),
            None => match processes {
                Some(p) => desktop_in(lower_of(p)),
                None => None,
            },
        },
    }
}

/// Whether a lower-cased command name is that of a known terminal emulator.
pub open spec fn is_known_terminal(command: Seq<char>) -> bool {
    has_infix(command, "konsole"@) || has_infix(command, "gnome-terminal"@) || has_infix(
        command,
        "xfce4-terminal"@,
    ) || has_infix(command, "alacritty"@) || has_infix(command, "kitty"@)
}

/// The terminal: the terminal-program signal, lower-cased, else the parent
/// process's command name, trimmed and lower-cased, where it is a known
/// terminal emulator.
pub open spec fn terminal_from(term_program: Option<Seq<char>>, parent_command: Option<
    Seq<char>,
>) -> Option<Seq<char>> {
    match term_program {
        Some(t) => Some(lower_of(t)),
        None => match parent_command {
            Some(c) => if is_known_terminal(lower_of(trimmed(c))) {
                Some(lower_of(trimmed(c)))
            } else {
                None
            },
            None => None,
        },
    }
}

/// The login shell's name, from the login shell path where it is set.
pub fn detect_shell(shell_path: Option<&str>) -> (r: Option<String>)
    ensures
        r.deep_view() == shell_from(shell_path.deep_view()),
{
    match shell_path {
        Some(p) => Some(last_segment(p)),
        None => None,
    }
}

/// The desktop environment, from the current-desktop and session signals
/// where set, else from the process listing where one could be taken.
pub fn detect_desktop_env(
    current_desktop: Option<&str>,
    desktop_session: Option<&str>,
    processes: Option<&str>,
) -> (r: Option<String>)
    ensures
        r.deep_view() == desktop_from(
            current_desktop.deep_view(),
            desktop_session.deep_view(),
            processes.deep_view(),
        ),
{
    match current_desktop {
        Some(d) => return Some(lowercase(d)),
        None => {},
    }
    match desktop_session {
        Some(s) => return Some(lowercase(s)),
        None => {},
    }
    match processes {
        Some(p) => {
            let l = lowercase(p);
            if text_contains(l.as_str(), "plasma") {
                Some(String::from_str("plasma"))
            } else if text_contains(l.as_str(), "gnome-shell") {
                Some(String::from_str("gnome"))
            } else if text_contains(l.as_str(), "xfce") {
                Some(String::from_str("xfce"))
            } else {
                None
            }
        },
        None => None,
    }
}

/// The terminal emulator, from the terminal-program signal where set, else
/// from the parent process's command name where one could be read.
pub fn detect_terminal(term_program: Option<&str>, parent_command: Option<&str>) -> (r: Option<
    String,
>)
    ensures
        r.deep_view() == terminal_from(term_program.deep_view(), parent_command.deep_view()),
{
    match term_program {
        Some(t) => return Some(lowercase(t)),
        None => {},
    }
    match parent_command {
        Some(c) => {
            let t = trim(c);
            let l = lowercase(t.as_str());
            let s = l.as_str();
            if text_contains(s, "konsole") || text_contains(s, "gnome-terminal") || text_contains(
                s,
                "xfce4-terminal",
            ) || text_contains(s, "alacritty") || text_contains(s, "kitty") {
                Some(l)
            } else {
                None
            }
        },
        None => None,
    }
}

/// Desktop widgets are not probed: there is never a list.
pub fn get_kde_widgets() -> (r: Option<Vec<String>>)
    ensures
        r is None,
{
    None
}

/// The language of the first `LANG=` line of a `locale` listing, with
/// every leading `LANG=` removed.
pub open spec fn lang_in(lines: Seq<Seq<char>>) -> Option<Seq<char>>
    decreases lines.len(),
{
    if lines.len() == 0 {
        None
    } else if has_prefix(lines[0], "LANG="@) {
        Some(strip_prefixes(lines[0], "LANG="@))
    } else {
        lang_in(lines.drop_first())
    }
}

/// The layout of the first line of a keyboard query that holds `layout:`:
/// the trimmed text between its first and second `:`.
pub open spec fn layout_in(lines: Seq<Seq<char>>) -> Option<Seq<char>>
    decreases lines.len(),
{
    if lines.len() == 0 {
        None
    } else if has_infix(lines[0], "layout:"@) {
        Some(
            trimmed(
                match second_field(lines[0], ":"@) {
                    Some(f) => f,
                    None => Seq::empty(),
                },
            ),
        )
    } else {
        layout_in(lines.drop_first())
    }
}

/// The language that a `locale` listing, split into lines, names.
pub fn lang_of_lines(lines: &Vec<String>) -> (r: Option<String>)
    ensures
        r.deep_view() == lang_in(lines.deep_view()),
{
    let ghost l = lines.deep_view();
    let mut i: usize = 0;
    assert(l.subrange(0, l.len() as int) =~= l);
    while i < lines.len()
        invariant
            i <= lines.len(),
            l == lines.deep_view(),
            lang_in(l) == lang_in(l.subrange(i as int, l.len() as int)),
        decreases lines.len() - i,
    {
        assert(l.subrange(i as int, l.len() as int)[0] == lines[i as int]@);
        if text_starts_with(lines[i].as_str(), "LANG=") {
            return Some(strip_all_prefixes(lines[i].as_str(), "LANG="));
        }
        assert(l.subrange(i as int, l.len() as int).drop_first() =~= l.subrange(
            i + 1,
            l.len() as int,
        ));
        i += 1;
    }
    None
}

/// The keyboard layout that a keyboard query, split into lines, names.
pub fn layout_of_lines(lines: &Vec<String>) -> (r: Option<String>)
    ensures
        r.deep_view() == layout_in(lines.deep_view()),
{
    let ghost l = lines.deep_view();
    let mut i: usize = 0;
    assert(l.subrange(0, l.len() as int) =~= l);
    while i < lines.len()
        invariant
            i <= lines.len(),
            l == lines.deep_view(),
            layout_in(l) == layout_in(l.subrange(i as int, l.len() as int)),
        decreases lines.len() - i,
    {
        assert(l.subrange(i as int, l.len() as int)[0] == lines[i as int]@);
        if text_contains(lines[i].as_str(), "layout:") {
            let field = match second_field_of(lines[i].as_str(), ":") {
                Some(f) => f,
                None => String::new(),
            };
            return Some(trim(field.as_str()));
        }
        assert(l.subrange(i as int, l.len() as int).drop_first() =~= l.subrange(
            i + 1,
            l.len() as int,
        ));
        i += 1;
    }
    None
}

/// The system language, from what the `locale` tool printed where it ran.
pub fn get_system_locale(locale_output: Option<&str>) -> (r: Option<String>)
    ensures
        r.deep_view() == match locale_output.deep_view() {
            Some(o) => lang_in(lines_of(o)),
            None => None,
        },
{
    match locale_output {
        Some(o) => lang_of_lines(&split_lines(o)),
        None => None,
    }
}

/// The time zone, from the target of the local-time link where it could be
/// read: the part after `/zoneinfo/`, up to any further `/zoneinfo/`.
pub fn get_system_timezone(localtime_target: Option<&str>) -> (r: Option<String>)
    ensures
        r.deep_view() == match localtime_target.deep_view() {
            Some(t) => second_field(t, "/zoneinfo/"@),
            None => None,
        },
{
    match localtime_target {
        Some(t) => second_field_of(t, "/zoneinfo/"),
        None => None,
    }
}

/// The keyboard layout, from what the keyboard query printed where it ran.
pub fn get_keyboard_layout(query_output: Option<&str>) -> (r: Option<String>)
    ensures
        r.deep_view() == match query_output.deep_view() {
            Some(o) => layout_in(lines_of(o)),
            None => None,
        },
{
    match query_output {
        Some(o) => layout_of_lines(&split_lines(o)),
        None => None,
    }
}

} // verus!
