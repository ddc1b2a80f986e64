use vstd::prelude::*;

use crate::text::{chars_of, find_last_span, lowercase, split_lines, split_words, starts_with_span, span_equals, string_of_span, trim_span, Trimmed};
use crate::text;

verus! {

broadcast use vstd::string::group_string_axioms;

// ---------------------------------------------------------------------------
// File names
// ---------------------------------------------------------------------------

/// The part of a file name before its extension, as `Path::file_stem`
/// gives it for a path whose last component is `name`.
pub open spec fn file_stem(name: Seq<char>) -> Seq<char> {
    if name == ".."@ {
        name
    } else {
        match text::find_last(name, '.') {
            Some(i) => if i == 0 {
                name
            } else {
                name.take(i)
            },
            None => name,
        }
    }
}

/// The extension of a file name, as `Path::extension` gives it for a path
/// whose last component is `name`.
pub open spec fn extension(name: Seq<char>) -> Option<Seq<char>> {
    if name == ".."@ {
        None
    } else {
        match text::find_last(name, '.') {
            Some(i) => if i == 0 {
                None
            } else {
                Some(name.skip(i + 1))
            },
            None => None,
        }
    }
}

proof fn lemma_find_last_after(a: Seq<char>, e: Seq<char>, c: char)
    requires
        forall|i: int| 0 <= i < e.len() ==> e[i] != c,
    ensures
        text::find_last(a.push(c) + e, c) == Some(a.len() as int),
    decreases e.len(),
{
    if e.len() == 0 {
        assert(a.push(c) + e =~= a.push(c));
    } else {
        let s = a.push(c) + e;
        assert(s.last() == e.last());
        assert(s.drop_last() =~= a.push(c) + e.drop_last());
        lemma_find_last_after(a, e.drop_last(), c);
    }
}

proof fn lemma_find_last_absent(s: Seq<char>, c: char)
    requires
        forall|i: int| 0 <= i < s.len() ==> s[i] != c,
    ensures
        text::find_last(s, c) is None,
    decreases s.len(),
{
    if s.len() > 0 {
        lemma_find_last_absent(s.drop_last(), c);
    }
}

/// A file name `<stem>.<ext>`, with a non-empty stem and no dot in the
/// extension, has the extension `ext` and the stem `stem` (the stem may
/// hold dots itself: `a.b.desktop` has the stem `a.b`).
pub proof fn lemma_stem_and_extension(stem: Seq<char>, ext: Seq<char>)
    requires
        stem.len() > 0,
        forall|i: int| 0 <= i < ext.len() ==> ext[i] != '.',
        stem.push('.') + ext != ".."@,
    ensures
        extension(stem.push('.') + ext) == Some(ext),
        file_stem(stem.push('.') + ext) == stem,
{
    lemma_find_last_after(stem, ext, '.');
    let n = stem.push('.') + ext;
    assert(n.skip(stem.len() + 1 as int) =~= ext);
    assert(n.take(stem.len() as int) =~= stem);
}

/// A file name without a dot has no extension and is its own stem, and so
/// is a name whose only dot leads it (a hidden file such as `.profile`).
pub proof fn lemma_no_extension(name: Seq<char>)
    requires
        forall|i: int| 1 <= i < name.len() ==> name[i] != '.',
    ensures
        extension(name) is None,
        file_stem(name) == name,
{
    if name.len() > 0 && name[0] == '.' {
        lemma_find_last_after(Seq::empty(), name.drop_first(), '.');
        assert(Seq::<char>::empty().push('.') + name.drop_first() =~= name);
    } else {
        lemma_find_last_absent(name, '.');
    }
}

fn is_dot_dot(s: &Vec<char>) -> (b: bool)
    ensures
        b == (s@ == ".."@),
{
    let d = chars_of("..");
    proof {
        assert(s@.subrange(0, s.len() as int) =~= s@);
    }
    span_equals(s, 0, s.len(), &d)
}

/// Whether a directory entry named `file_name` is a desktop entry file:
/// its extension is `desktop`.
pub fn is_desktop_file(file_name: &str) -> (b: bool)
    ensures
        b == (extension(file_name@) == Some("desktop"@)),
{
    let s = chars_of(file_name);
    if is_dot_dot(&s) {
        return false;
    }
    proof {
        assert(s@.subrange(0, s.len() as int) =~= s@);
    }
    match find_last_span(&s, 0, s.len(), '.') {
        Some(i) => {
            if i == 0 {
                false
            } else {
                let ext = chars_of("desktop");
                let b = span_equals(&s, i + 1, s.len(), &ext);
                assert(s@.subrange(i + 1, s.len() as int) =~= s@.skip(i + 1));
                b
            }
        },
        None => false,
    }
}

fn stem_of(s: &Vec<char>) -> (r: String)
    ensures
        r@ == file_stem(s@),
{
    proof {
        assert(s@.subrange(0, s.len() as int) =~= s@);
    }
    if is_dot_dot(s) {
        return string_of_span(s, 0, s.len());
    }
    match find_last_span(s, 0, s.len(), '.') {
        Some(i) => {
            if i == 0 {
                string_of_span(s, 0, s.len())
            } else {
                let r = string_of_span(s, 0, i);
                assert(s@.subrange(0, i as int) =~= s@.take(i as int));
                r
            }
        },
        None => string_of_span(s, 0, s.len()),
    }
}

// ---------------------------------------------------------------------------
// Desktop entry files
// ---------------------------------------------------------------------------

/// A program that the desktop starts at login.
#[derive(Debug)]
pub struct AutostartProgram {
    pub name: String,
    pub command: String,
    pub location: String,
    pub path: String,
    pub running: bool,
}

/// The `Name=` and `Exec=` values found by reading the lines `ls` (each
/// trimmed) after the values `name` and `command` so far. Keys count only
/// inside the `[Desktop Entry]` group; the next group header ends the scan;
/// a later key replaces an earlier one.
pub open spec fn scan_desktop(
    ls: Seq<Seq<char>>,
    name: Seq<char>,
    command: Seq<char>,
    in_entry: bool,
) -> (Seq<char>, Seq<char>)
    decreases ls.len(),
{
    if ls.len() == 0 {
        (name, command)
    } else {
        let l = text::trim(ls[0], Trimmed::Whitespace);
        let rest = ls.drop_first();
        if l == "[Desktop Entry]"@ {
            scan_desktop(rest, name, command, true)
        } else if in_entry && text::starts_with(l, "["@) {
            (name, command)
        } else if in_entry && text::starts_with(l, "Name="@) {
            scan_desktop(rest, l.skip(5), command, true)
        } else if in_entry && text::starts_with(l, "Exec="@) {
            scan_desktop(rest, name, l.skip(5), true)
        } else {
            scan_desktop(rest, name, command, in_entry)
        }
    }
}

/// Reading a line `l`, before the lines `rest`, inside the
/// `[Desktop Entry]` group.
proof fn lemma_scan_first(l: Seq<char>, rest: Seq<Seq<char>>)
    ensures
        (seq![l] + rest)[0] == l,
        (seq![l] + rest).drop_first() == rest,
{
    assert((seq![l] + rest).drop_first() =~= rest);
}

/// Inside the `[Desktop Entry]` group, a line that reads `Name=<v>` once
/// trimmed makes `v` the name; the command is unchanged.
pub proof fn lemma_desktop_name_line(
    l: Seq<char>,
    v: Seq<char>,
    rest: Seq<Seq<char>>,
    name: Seq<char>,
    command: Seq<char>,
)
    requires
        text::trim(l, Trimmed::Whitespace) == "Name="@ + v,
    ensures
        scan_desktop(seq![l] + rest, name, command, true) == scan_desktop(rest, v, command, true),
{
    lemma_scan_first(l, rest);
    reveal_strlit("Name=");
    reveal_strlit("[Desktop Entry]");
    reveal_strlit("[");
    let t = text::trim(l, Trimmed::Whitespace);
    assert(t[0] == 'N');
    assert(t.take(5) =~= "Name="@);
    assert(t.skip(5) =~= v);
    assert(t != "[Desktop Entry]"@);
    assert(!text::starts_with(t, "["@));
}

/// Inside the `[Desktop Entry]` group, a line that reads `Exec=<v>` once
/// trimmed makes `v` the command; the name is unchanged.
pub proof fn lemma_desktop_exec_line(
    l: Seq<char>,
    v: Seq<char>,
    rest: Seq<Seq<char>>,
    name: Seq<char>,
    command: Seq<char>,
)
    requires
        text::trim(l, Trimmed::Whitespace) == "Exec="@ + v,
    ensures
        scan_desktop(seq![l] + rest, name, command, true) == scan_desktop(rest, name, v, true),
{
    lemma_scan_first(l, rest);
    reveal_strlit("Name=");
    reveal_strlit("Exec=");
    reveal_strlit("[Desktop Entry]");
    reveal_strlit("[");
    let t = text::trim(l, Trimmed::Whitespace);
    assert(t[0] == 'E');
    assert(t.take(5) =~= "Exec="@);
    assert(!text::starts_with(t, "Name="@)) by {
        assert(t.take(5)[0] != "Name="@[0]);
    }
    assert(t.skip(5) =~= v);
    assert(t != "[Desktop Entry]"@);
    assert(!text::starts_with(t, "["@));
}

/// Inside the `[Desktop Entry]` group, a line that, once trimmed, starts
/// with `Name` but not with `Name=` (such as a localized `Name[pl]=...`)
/// changes neither the name nor the command.
pub proof fn lemma_desktop_localized_name_ignored(
    l: Seq<char>,
    rest: Seq<Seq<char>>,
    name: Seq<char>,
    command: Seq<char>,
)
    requires
        text::trim(l, Trimmed::Whitespace).len() >= 5,
        text::trim(l, Trimmed::Whitespace).take(4) == "Name"@,
        text::trim(l, Trimmed::Whitespace)[4] != '=',
    ensures
        scan_desktop(seq![l] + rest, name, command, true) == scan_desktop(rest, name, command, true),
{
    lemma_scan_first(l, rest);
    reveal_strlit("Name");
    reveal_strlit("Name=");
    reveal_strlit("Exec=");
    reveal_strlit("[Desktop Entry]");
    reveal_strlit("[");
    let t = text::trim(l, Trimmed::Whitespace);
    assert(t[0] == t.take(4)[0]);
    assert(t[0] == 'N');
    assert(t != "[Desktop Entry]"@) by {
        assert("[Desktop Entry]"@[0] == '[');
    }
    assert(!text::starts_with(t, "["@));
    assert(!text::starts_with(t, "Name="@)) by {
        assert(t.take(5)[4] == t[4]);
        assert("Name="@[4] == '=');
    }
    assert(!text::starts_with(t, "Exec="@)) by {
        assert(t.take(5)[0] == 'N');
        assert("Exec="@[0] == 'E');
    }
}

/// Inside the group, the next group header ends the reading: the values
/// found so far are the result, whatever follows.
pub proof fn lemma_desktop_group_ends(
    l: Seq<char>,
    rest: Seq<Seq<char>>,
    name: Seq<char>,
    command: Seq<char>,
)
    requires
        text::trim(l, Trimmed::Whitespace).len() > 0,
        text::trim(l, Trimmed::Whitespace)[0] == '[',
        text::trim(l, Trimmed::Whitespace) != "[Desktop Entry]"@,
    ensures
        scan_desktop(seq![l] + rest, name, command, true) == (name, command),
{
    lemma_scan_first(l, rest);
    reveal_strlit("[");
    let t = text::trim(l, Trimmed::Whitespace);
    assert(t.take(1) =~= "["@);
}

/// Outside the `[Desktop Entry]` group, `Name=` and `Exec=` lines count for
/// nothing.
pub proof fn lemma_desktop_keys_outside_group(
    l: Seq<char>,
    v: Seq<char>,
    rest: Seq<Seq<char>>,
    name: Seq<char>,
    command: Seq<char>,
)
    requires
        text::trim(l, Trimmed::Whitespace) == "Name="@ + v || text::trim(l, Trimmed::Whitespace)
            == "Exec="@ + v,
    ensures
        scan_desktop(seq![l] + rest, name, command, false) == scan_desktop(rest, name, command, false),
{
    lemma_scan_first(l, rest);
    reveal_strlit("Name=");
    reveal_strlit("Exec=");
    reveal_strlit("[Desktop Entry]");
    let t = text::trim(l, Trimmed::Whitespace);
    assert(t[0] == 'N' || t[0] == 'E');
    assert(t != "[Desktop Entry]"@) by {
        assert("[Desktop Entry]"@[0] == '[');
    }
}

/// The `[Desktop Entry]` header line opens the group.
pub proof fn lemma_desktop_header_opens(
    l: Seq<char>,
    rest: Seq<Seq<char>>,
    name: Seq<char>,
    command: Seq<char>,
    in_entry: bool,
)
    requires
        text::trim(l, Trimmed::Whitespace) == "[Desktop Entry]"@,
    ensures
        scan_desktop(seq![l] + rest, name, command, in_entry) == scan_desktop(rest, name, command, true),
{
    lemma_scan_first(l, rest);
}

/// The name and command that a desktop entry file declares.
pub open spec fn desktop_values(content: Seq<char>) -> (Seq<char>, Seq<char>) {
    scan_desktop(text::lines(content), seq![], seq![], false)
}

/// Reads the desktop entry file `file_name` (its text `content`), found
/// at `path` in the autostart directory `location`. The program gets the
/// `Name=` of the `[Desktop Entry]` group, or the file name without its
/// extension when there is none; a file without an `Exec=` command gives
/// nothing. The program is not yet known to be running.
pub fn parse_desktop_file(content: &str, file_name: &str, location: &str, path: &str) -> (r:
    Option<AutostartProgram>)
    ensures
        r is Some <==> desktop_values(content@).1.len() > 0,
        r matches Some(p) ==> {
            &&& p.name@ == if desktop_values(content@).0.len() == 0 {
                file_stem(file_name@)
            } else {
                desktop_values(content@).0
            }
            &&& p.command@ == desktop_values(content@).1
            &&& p.location@ == location@
            &&& p.path@ == path@
            &&& !p.running
        },
{
    let s = chars_of(content);
    let ls = split_lines(&s, 0, s.len());
    let ghost all = text::lines(s@.subrange(0, s.len() as int));
    proof {
        assert(s@.subrange(0, s.len() as int) =~= content@);
    }
    let header = chars_of("[Desktop Entry]");
    let open = chars_of("[");
    let name_key = chars_of("Name=");
    let exec_key = chars_of("Exec=");
    let mut name = String::new();
    let mut command = String::new();
    let mut in_entry = false;
    let mut done = false;
    let mut i: usize = 0;
    proof {
        reveal_strlit("Name=");
        reveal_strlit("Exec=");
        assert(all.skip(0) =~= all);
    }
    while i < ls.len() && !done
        invariant
            0 <= i <= ls.len(),
            all == text::lines(content@),
            s@ == content@,
            ls.len() == all.len(),
            forall|k: int|
                0 <= k < ls.len() ==> {
                    &&& 0 <= (#[trigger] ls[k]).0 <= ls[k].1 <= s.len()
                    &&& s@.subrange(ls[k].0 as int, ls[k].1 as int) == all[k]
                },
            header@ == "[Desktop Entry]"@,
            open@ == "["@,
            name_key@ == "Name="@,
            exec_key@ == "Exec="@,
            name_key@.len() == 5,
            exec_key@.len() == 5,
            scan_desktop(all, seq![], seq![], false) == if done {
                (name@, command@)
            } else {
                scan_desktop(all.skip(i as int), name@, command@, in_entry)
            },
        decreases ls.len() - i + if done { 0int } else { 1int },
    {
        let (a0, b0) = ls[i];
        let (a, b) = trim_span(&s, a0, b0, Trimmed::Whitespace);
        let ghost l = text::trim(all[i as int], Trimmed::Whitespace);
        assert(s@.subrange(a as int, b as int) == l);
        assert(all.skip(i as int)[0] == all[i as int]);
        assert(all.skip(i as int).drop_first() =~= all.skip(i + 1));
        if span_equals(&s, a, b, &header) {
            in_entry = true;
        } else if in_entry && starts_with_span(&s, a, b, &open) {
            done = true;
        } else if in_entry && starts_with_span(&s, a, b, &name_key) {
            name = string_of_span(&s, a + 5, b);
            assert(s@.subrange(a + 5, b as int) =~= l.skip(5));
        } else if in_entry && starts_with_span(&s, a, b, &exec_key) {
            command = string_of_span(&s, a + 5, b);
            assert(s@.subrange(a + 5, b as int) =~= l.skip(5));
        }
        if !done {
            i = i + 1;
        }
    }
    proof {
        if !done {
            assert(all.skip(i as int) =~= Seq::<Seq<char>>::empty());
        }
    }
    if command.as_str().is_empty() {
        return None;
    }
    let shown = if name.as_str().is_empty() {
        let f = chars_of(file_name);
        stem_of(&f)
    } else {
        name
    };
    Some(
        AutostartProgram {
            name: shown,
            command,
            location: location.to_string(),
            path: path.to_string(),
            running: false,
        },
    )
}

// ---------------------------------------------------------------------------
// Is the program running?
// ---------------------------------------------------------------------------

/// The file name of the program that `command` starts: its first word,
/// after the last `/`; nothing when the command has no word.
pub open spec fn executable_name(command: Seq<char>) -> Seq<char> {
    let w = text::words(command);
    if w.len() == 0 {
        seq![]
    } else {
        match text::find_last(w[0], '/') {
            Some(i) => w[0].skip(i + 1),
            None => w[0],
        }
    }
}

proof fn lemma_find_last_is_last(s: Seq<char>, c: char)
    ensures
        text::find_last(s, c) matches Some(i) ==> 0 <= i < s.len() && s[i] == c && forall|j: int|
            i < j < s.len() ==> s[j] != c,
        text::find_last(s, c) is None ==> forall|j: int| 0 <= j < s.len() ==> s[j] != c,
    decreases s.len(),
{
    if s.len() > 0 && s.last() != c {
        lemma_find_last_is_last(s.drop_last(), c);
        assert forall|j: int| 0 <= j < s.len() - 1 implies s.drop_last()[j] == s[j] by {}
    }
}

/// The program name never holds a `/`: it is what follows the last `/` of
/// the command's first word, and a first word without `/` is the name
/// itself.
pub proof fn lemma_executable_name_parts(command: Seq<char>)
    ensures
        forall|j: int|
            0 <= j < executable_name(command).len() ==> #[trigger] executable_name(command)[j] != '/',
        text::words(command).len() > 0 && (forall|j: int|
            0 <= j < text::words(command)[0].len() ==> #[trigger] text::words(command)[0][j] != '/')
            ==> executable_name(command) == text::words(command)[0],
        text::words(command).len() == 0 ==> executable_name(command).len() == 0,
{
    let w = text::words(command);
    if w.len() > 0 {
        lemma_find_last_is_last(w[0], '/');
        if text::find_last(w[0], '/') is Some {
            let i = text::find_last(w[0], '/')->0;
            assert forall|j: int| 0 <= j < executable_name(command).len() implies #[trigger] executable_name(
                command,
            )[j] != '/' by {
                assert(executable_name(command)[j] == w[0][i + 1 + j]);
            }
        }
    }
}

/// The file name of the program that `command` starts.
pub fn get_executable_name(command: &str) -> (r: String)
    ensures
        r@ == executable_name(command@),
{
    let s = chars_of(command);
    let ws = split_words(&s, 0, s.len());
    proof {
        assert(s@.subrange(0, s.len() as int) =~= command@);
    }
    if ws.len() == 0 {
        return String::new();
    }
    let (a, b) = ws[0];
    let ghost w = s@.subrange(a as int, b as int);
    assert(w == text::words(command@)[0]);
    match find_last_span(&s, a, b, '/') {
        Some(i) => {
            let r = string_of_span(&s, i + 1, b);
            assert(s@.subrange(i + 1, b as int) =~= w.skip(i + 1 - a));
            r
        },
        None => string_of_span(&s, a, b),
    }
}

/// Some process has the name of the program that `command` starts,
/// ignoring case.
pub open spec fn program_running(process_names: Seq<String>, command: Seq<char>) -> bool {
    exists|i: int|
        0 <= i < process_names.len() && text::lowercase_of(#[trigger] process_names[i]@) == text::lowercase_of(
            executable_name(command),
        )
}

/// A process whose name is exactly the program's name counts as running
/// it; with no processes nothing runs.
pub proof fn lemma_running_when_named(process_names: Seq<String>, command: Seq<char>, i: int)
    requires
        0 <= i < process_names.len(),
        process_names[i]@ == executable_name(command),
    ensures
        program_running(process_names, command),
        !program_running(Seq::<String>::empty(), command),
{
}

fn same_text(a: &String, b: &String) -> (r: bool)
    ensures
        r == (a@ == b@),
{
    a.eq(b)
}

/// Whether one of the running processes, given by name, runs the program
/// that `command` starts. Names are compared in lower case.
pub fn is_process_running(process_names: &Vec<String>, command: &str) -> (b: bool)
    ensures
        b == program_running(process_names@, command@),
{
    let exe = get_executable_name(command);
    let exe_lower = lowercase(exe.as_str());
    let mut i: usize = 0;
    while i < process_names.len()
        invariant
            0 <= i <= process_names.len(),
            exe_lower@ == text::lowercase_of(executable_name(command@)),
            forall|k: int|
                0 <= k < i ==> text::lowercase_of(#[trigger] process_names@[k]@) != text::lowercase_of(
                    executable_name(command@),
                ),
        decreases process_names.len() - i,
    {
        let name_lower = lowercase(process_names[i].as_str());
        if same_text(&name_lower, &exe_lower) {
            assert(text::lowercase_of(process_names@[i as int]@) == text::lowercase_of(executable_name(command@)));
            return true;
        }
        i = i + 1;
    }
    false
}

/// One entry of an autostart directory: the desktop entry file `file_name`
/// with text `content`, at `path` in the directory `location`, checked
/// against the running processes `process_names`.
pub fn autostart_entry(
    content: &str,
    file_name: &str,
    location: &str,
    path: &str,
    process_names: &Vec<String>,
) -> (r: Option<AutostartProgram>)
    ensures
        r is Some <==> desktop_values(content@).1.len() > 0,
        r matches Some(p) ==> {
            &&& p.name@ == if desktop_values(content@).0.len() == 0 {
                file_stem(file_name@)
            } else {
                desktop_values(content@).0
            }
            &&& p.command@ == desktop_values(content@).1
            &&& p.location@ == location@
            &&& p.path@ == path@
            &&& p.running == program_running(process_names@, p.command@)
        },
{
    match parse_desktop_file(content, file_name, location, path) {
        Some(mut p) => {
            p.running = is_process_running(process_names, p.command.as_str());
            Some(p)
        },
        None => None,
    }
}

} // verus!
