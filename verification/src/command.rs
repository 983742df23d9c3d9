//! Commands that are run through a shell, with the right environment on each system.

use vstd::prelude::*;

use crate::paths;
use crate::text;

verus! {

/// A system.
#[derive(Debug, Clone, Copy, PartialEq, Eq, Structural)]
pub enum System {
    Windows,
    Unix,
}

/// How to run a command: the program, its arguments, and how the environment and the directory get
/// to it.
#[derive(Debug)]
pub struct ShellCommand {
    pub program: String,
    pub args: Vec<String>,
    /// Whether the variables are set for the program. Else they are in its arguments.
    pub set_env: bool,
    /// Whether the program is started in the directory. Else the directory is in its arguments.
    pub set_dir: bool,
    /// Whether the program gets a process group of its own, so that it can be stopped with all that
    /// it has started.
    pub new_group: bool,
    /// Whether the program is started without a window.
    pub no_window: bool,
}

/// A text with each single quote written so that it can stand between single quotes: the quote is
/// closed, an escaped quote follows, and the quote is opened again.
pub open spec fn escaped(value: Seq<char>) -> Seq<char>
    decreases value.len(),
{
    if value.len() == 0 {
        seq![]
    } else if value.last() == '\'' {
        escaped(value.drop_last()) + seq!['\'', '\\', '\'', '\'']
    } else {
        escaped(value.drop_last()).push(value.last())
    }
}

/// A variable as a shell sets it for one command.
pub open spec fn assignment(name: Seq<char>, value: Seq<char>) -> Seq<char> {
    name + "='"@ + escaped(value) + "'"@
}

/// A command with its variables in front.
pub open spec fn with_assignments(env: Seq<(String, String)>, command: Seq<char>) -> Seq<char> {
    if env.len() == 0 {
        command
    } else {
        text::join_views(assignments(env), " "@) + " "@ + command
    }
}

/// The assignments of variables.
pub open spec fn assignments(env: Seq<(String, String)>) -> Seq<Seq<char>> {
    env.map_values(|e: (String, String)| assignment(e.0@, e.1@))
}

/// A text that can stand between single quotes.
pub fn escape(value: &str) -> (r: String)
    ensures
        r@ == escaped(value@),
{
    let n: usize = value.unicode_len();
    let mut r = String::new();
    let mut i: usize = 0;
    assert(value@.take(0).len() == 0);
    assert(r@ =~= escaped(value@.take(0)));
    while i < n
        invariant
            n == value@.len(),
            i <= n,
            r@ == escaped(value@.take(i as int)),
        decreases n - i,
    {
        let c = value.get_char(i);
        proof {
            assert(value@.take(i + 1).drop_last() =~= value@.take(i as int));
            assert(value@.take(i + 1).last() == c);
        }
        if c == '\'' {
            r.append("'\\''");
            proof {
                reveal_strlit("'\\''");
                assert("'\\''"@ =~= seq!['\'', '\\', '\'', '\'']);
            }
        } else {
            r.append(value.substring_char(i, i + 1));
            proof {
                assert(value@.subrange(i as int, i + 1) =~= seq![c]);
                assert(r@ =~= escaped(value@.take(i as int)).push(c));
            }
        }
        i = i + 1;
    }
    assert(value@.take(n as int) =~= value@);
    r
}

/// A command with its variables in front.
pub fn command_with_env(command: &str, env: &Vec<(String, String)>) -> (r: String)
    ensures
        r@ == with_assignments(env@, command@),
{
    if env.len() == 0 {
        return command.to_owned();
    }
    let mut parts: Vec<String> = Vec::new();
    let mut i: usize = 0;
    while i < env.len()
        invariant
            i <= env.len(),
            parts.len() == i,
            forall|k: int|
                0 <= k < i ==> (#[trigger] parts@[k])@ == assignment(env@[k].0@, env@[k].1@),
        decreases env.len() - i,
    {
        let mut part = env[i].0.clone();
        part.append("='");
        part.append(escape(env[i].1.as_str()).as_str());
        part.append("'");
        parts.push(part);
        i = i + 1;
    }
    assert(text::texts(parts@) =~= assignments(env@));
    let mut r = text::join(&parts, " ");
    r.append(" ");
    r.append(command);
    r
}

/// How to run a command. `is_wsl` matters on Windows alone: the command is then run inside the
/// Windows Subsystem for Linux.
pub fn create_shell_command(
    system: System,
    cmd: &str,
    env: &Vec<(String, String)>,
    cwd: &str,
    is_wsl: bool,
) -> (r: ShellCommand)
    ensures
        match system {
            System::Windows => if is_wsl {
                &&& r.program@ == "wsl.exe"@
                &&& text::texts(r.args@) == seq!["--cd"@, cwd@, "sh"@, "-c"@, with_assignments(env@, cmd@)]
                &&& !r.set_env && !r.set_dir && !r.new_group && r.no_window
            } else {
                &&& r.program@ == "cmd.exe"@
                &&& text::texts(r.args@) == seq!["/s"@, "/c"@, cmd@]
                &&& r.set_env && r.set_dir && !r.new_group && r.no_window
            },
            System::Unix => {
                &&& r.program@ == "sh"@
                &&& text::texts(r.args@) == seq!["-c"@, cmd@]
                &&& r.set_env && r.set_dir && r.new_group && !r.no_window
            },
        },
{
    let mut args: Vec<String> = Vec::new();
    match system {
        System::Windows => {
            if is_wsl {
                args.push("--cd".to_owned());
                args.push(cwd.to_owned());
                args.push("sh".to_owned());
                args.push("-c".to_owned());
                args.push(command_with_env(cmd, env));
                assert(text::texts(args@) =~= seq![
                    "--cd"@,
                    cwd@,
                    "sh"@,
                    "-c"@,
                    with_assignments(env@, cmd@),
                ]);
                ShellCommand {
                    program: "wsl.exe".to_owned(),
                    args,
                    set_env: false,
                    set_dir: false,
                    new_group: false,
                    no_window: true,
                }
            } else {
                args.push("/s".to_owned());
                args.push("/c".to_owned());
                args.push(cmd.to_owned());
                assert(text::texts(args@) =~= seq!["/s"@, "/c"@, cmd@]);
                ShellCommand {
                    program: "cmd.exe".to_owned(),
                    args,
                    set_env: true,
                    set_dir: true,
                    new_group: false,
                    no_window: true,
                }
            }
        },
        System::Unix => {
            args.push("-c".to_owned());
            args.push(cmd.to_owned());
            assert(text::texts(args@) =~= seq!["-c"@, cmd@]);
            ShellCommand {
                program: "sh".to_owned(),
                args,
                set_env: true,
                set_dir: true,
                new_group: true,
                no_window: false,
            }
        },
    }
}

// ---------------------------------------------------------------------------
// The environment inside an AppImage
// ---------------------------------------------------------------------------

/// The variables that an AppImage sets for itself and that break other programs.
pub open spec fn appimage_names() -> Seq<Seq<char>> {
    seq![
        "APPDIR"@,
        "APPIMAGE"@,
        "BABL_PATH"@,
        "__EGL_VENDOR_LIBRARY_DIRS"@,
        "GBM_BACKENDS_PATH"@,
        "GCONV_PATH"@,
        "GDK_PIXBUF_MODULEDIR"@,
        "GDK_PIXBUF_MODULE_FILE"@,
        "GEGL_PATH"@,
        "GIO_MODULE_DIR"@,
        "GI_TYPELIB_PATH"@,
        "GSETTINGS_SCHEMA_DIR"@,
        "GST_PLUGIN_PATH"@,
        "GST_PLUGIN_SCANNER"@,
        "GST_PLUGIN_SYSTEM_PATH"@,
        "GST_PLUGIN_SYSTEM_PATH_1_0"@,
        "GTK_DATA_PREFIX"@,
        "GTK_EXE_PREFIX"@,
        "GTK_IM_MODULE_FILE"@,
        "GTK_PATH"@,
        "LD_LIBRARY_PATH"@,
        "LIBDECOR_PLUGIN_DIR"@,
        "LIBGL_DRIVERS_PATH"@,
        "LIBVA_DRIVERS_PATH"@,
        "PERLLIB"@,
        "PIPEWIRE_MODULE_DIR"@,
        "QT_PLUGIN_PATH"@,
        "SPA_PLUGIN_DIR"@,
        "TCL_LIBRARY"@,
        "TK_LIBRARY"@,
        "XTABLES_LIBDIR"@,
    ]
}

/// The variables to be removed from the environment of a program that is started from inside an
/// AppImage.
pub fn appimage_variables() -> (r: Vec<&'static str>)
    ensures
        r@.map_values(|name: &'static str| name@) == appimage_names(),
{
    let r: Vec<&'static str> = vec![
        "APPDIR",
        "APPIMAGE",
        "BABL_PATH",
        "__EGL_VENDOR_LIBRARY_DIRS",
        "GBM_BACKENDS_PATH",
        "GCONV_PATH",
        "GDK_PIXBUF_MODULEDIR",
        "GDK_PIXBUF_MODULE_FILE",
        "GEGL_PATH",
        "GIO_MODULE_DIR",
        "GI_TYPELIB_PATH",
        "GSETTINGS_SCHEMA_DIR",
        "GST_PLUGIN_PATH",
        "GST_PLUGIN_SCANNER",
        "GST_PLUGIN_SYSTEM_PATH",
        "GST_PLUGIN_SYSTEM_PATH_1_0",
        "GTK_DATA_PREFIX",
        "GTK_EXE_PREFIX",
        "GTK_IM_MODULE_FILE",
        "GTK_PATH",
        "LD_LIBRARY_PATH",
        "LIBDECOR_PLUGIN_DIR",
        "LIBGL_DRIVERS_PATH",
        "LIBVA_DRIVERS_PATH",
        "PERLLIB",
        "PIPEWIRE_MODULE_DIR",
        "QT_PLUGIN_PATH",
        "SPA_PLUGIN_DIR",
        "TCL_LIBRARY",
        "TK_LIBRARY",
        "XTABLES_LIBDIR",
    ];
    assert(r@.map_values(|name: &'static str| name@) =~= appimage_names());
    r
}

/// The entries of a list of directories that are not inside the AppImage.
pub open spec fn outside(entries: Seq<Seq<char>>, mount: Seq<char>) -> Seq<Seq<char>>
    decreases entries.len(),
{
    if entries.len() == 0 {
        seq![]
    } else {
        let rest = outside(entries.drop_last(), mount);
        if paths::relative(entries.last(), mount) is None {
            rest.push(entries.last())
        } else {
            rest
        }
    }
}

/// Drops the entries of a list of directories that are inside the AppImage, which is mounted at
/// `mount`.
pub fn filter_entries(entries: &Vec<String>, mount: &str) -> (r: Vec<String>)
    ensures
        text::texts(r@) == outside(text::texts(entries@), mount@),
{
    let ghost all = text::texts(entries@);
    let mut r: Vec<String> = Vec::new();
    let mut i: usize = 0;
    assert(all.take(0).len() == 0);
    assert(text::texts(r@) =~= outside(all.take(0), mount@));
    while i < entries.len()
        invariant
            all == text::texts(entries@),
            i <= entries.len(),
            text::texts(r@) == outside(all.take(i as int), mount@),
        decreases entries.len() - i,
    {
        let ghost before = r@;
        proof {
            assert(all.take(i + 1).drop_last() =~= all.take(i as int));
            assert(all.take(i + 1).last() == entries@[i as int]@);
        }
        if paths::to_relative_path(System::Unix, entries[i].as_str(), mount).is_none() {
            r.push(entries[i].clone());
            assert(text::texts(r@) =~= text::texts(before).push(entries@[i as int]@));
        }
        i = i + 1;
    }
    assert(all.take(all.len() as int) =~= all);
    r
}

// ---------------------------------------------------------------------------
// Laws
// ---------------------------------------------------------------------------

/// What a shell reads from a word of quoted and unquoted parts.
pub open spec fn shell_word(word: Seq<char>, quoted: bool) -> Seq<char>
    decreases word.len(),
{
    if word.len() == 0 {
        seq![]
    } else if word[0] == '\'' {
        shell_word(word.drop_first(), !quoted)
    } else if !quoted && word[0] == '\\' && word.len() > 1 {
        seq![word[1]] + shell_word(word.skip(2), quoted)
    } else {
        seq![word[0]] + shell_word(word.drop_first(), quoted)
    }
}

proof fn lemma_shell_word_escaped(value: Seq<char>, rest: Seq<char>)
    ensures
        shell_word(escaped(value) + rest, true) == value + shell_word(rest, true),
    decreases value.len(),
{
    if value.len() == 0 {
        assert(escaped(value) + rest =~= rest);
        assert(value + shell_word(rest, true) =~= shell_word(rest, true));
    } else {
        let front = value.drop_last();
        let c = value.last();
        if c == '\'' {
            let quote = seq!['\'', '\\', '\'', '\''];
            let tail = quote + rest;
            assert(escaped(value) + rest =~= escaped(front) + tail);
            lemma_shell_word_escaped(front, tail);
            assert(tail.drop_first() =~= seq!['\\', '\'', '\''] + rest);
            let after_close = tail.drop_first();
            assert(after_close.skip(2) =~= seq!['\''] + rest);
            assert(after_close.skip(2).drop_first() =~= rest);
            assert(shell_word(after_close.skip(2), false) == shell_word(rest, true));
            assert(shell_word(after_close, false) == seq!['\''] + shell_word(rest, true));
            assert(shell_word(tail, true) == seq!['\''] + shell_word(rest, true));
            assert(front + (seq!['\''] + shell_word(rest, true)) =~= value + shell_word(rest, true));
        } else {
            let tail = seq![c] + rest;
            assert(escaped(value) + rest =~= escaped(front) + tail);
            lemma_shell_word_escaped(front, tail);
            assert(tail.drop_first() =~= rest);
            assert(front + (seq![c] + shell_word(rest, true)) =~= value + shell_word(rest, true));
        }
    }
}

/// A shell reads a quoted value back as it was, whatever characters it has.
pub proof fn lemma_quoted_value_is_read_back(value: Seq<char>)
    ensures
        shell_word(seq!['\''] + escaped(value) + seq!['\''], false) == value,
{
    let word = seq!['\''] + escaped(value) + seq!['\''];
    assert(word.drop_first() =~= escaped(value) + seq!['\'']);
    lemma_shell_word_escaped(value, seq!['\'']);
    assert(shell_word(seq!['\''].drop_first(), false) =~= seq![]);
    assert(shell_word(seq!['\''], true) =~= seq![]);
    assert(value + Seq::<char>::empty() =~= value);
}

/// How a command is run on each system: by `sh` on Unix, by `cmd.exe` on Windows, and inside the Windows
/// Subsystem for Linux by `wsl.exe`, which gets the directory and the variables with the command.
pub proof fn lemma_shell_command_call(
    system: System,
    cmd: &str,
    env: &Vec<(String, String)>,
    cwd: &str,
    is_wsl: bool,
    r: ShellCommand,
)
    requires
        call_ensures(create_shell_command, (system, cmd, env, cwd, is_wsl), r),
    ensures
        system == System::Unix ==> {
            &&& r.program@ == "sh"@
            &&& text::texts(r.args@) == seq!["-c"@, cmd@]
            &&& r.set_env && r.set_dir && r.new_group && !r.no_window
        },
        system == System::Windows && !is_wsl ==> {
            &&& r.program@ == "cmd.exe"@
            &&& text::texts(r.args@) == seq!["/s"@, "/c"@, cmd@]
            &&& r.set_env && r.set_dir && !r.new_group && r.no_window
        },
        system == System::Windows && is_wsl ==> {
            &&& r.program@ == "wsl.exe"@
            &&& text::texts(r.args@) == seq!["--cd"@, cwd@, "sh"@, "-c"@, with_assignments(env@, cmd@)]
            &&& !r.set_env && !r.set_dir && !r.new_group && r.no_window
        },
{
}

/// A command gets its variables in front, each as an assignment of its quoted value, with blanks between
/// them, and stands alone without variables.
pub proof fn lemma_assignments(env: Seq<(String, String)>, name: String, value: String, command: Seq<char>)
    ensures
        with_assignments(Seq::<(String, String)>::empty(), command) == command,
        with_assignments(seq![(name, value)], command) == name@ + "='"@ + escaped(value@) + "' "@ + command,
        assignments(env).len() == env.len(),
        assignments(env.push((name, value))) == assignments(env).push(
            name@ + "='"@ + escaped(value@) + "'"@,
        ),
        env.len() > 0 ==> with_assignments(env, command) == text::join_views(assignments(env), " "@) + " "@
            + command,
{
    reveal_strlit("'");
    reveal_strlit(" ");
    reveal_strlit("' ");
    let one = seq![(name, value)];
    assert(assignments(one) =~= seq![assignment(name@, value@)]);
    assert(with_assignments(one, command) =~= name@ + "='"@ + escaped(value@) + "' "@ + command);
    assert(assignments(env.push((name, value))) =~= assignments(env).push(
        name@ + "='"@ + escaped(value@) + "'"@,
    ));
}

/// Only single quotes are escaped: a text without them is quoted as it is.
pub proof fn lemma_escaped(value: Seq<char>, c: char)
    ensures
        escaped(Seq::<char>::empty()).len() == 0,
        c != '\'' ==> escaped(value.push(c)) == escaped(value).push(c),
        escaped(value.push('\'')) == escaped(value) + seq!['\'', '\\', '\'', '\''],
{
    assert(value.push(c).drop_last() =~= value);
    assert(value.push('\'').drop_last() =~= value);
}

/// Of a list of directories those stay, in their order, that are not inside the AppImage.
pub proof fn lemma_outside(entries: Seq<Seq<char>>, entry: Seq<char>, mount: Seq<char>)
    ensures
        outside(Seq::<Seq<char>>::empty(), mount).len() == 0,
        paths::relative(entry, mount) is None ==> outside(entries.push(entry), mount) == outside(
            entries,
            mount,
        ).push(entry),
        paths::relative(entry, mount) is Some ==> outside(entries.push(entry), mount) == outside(
            entries,
            mount,
        ),
{
    assert(entries.push(entry).drop_last() =~= entries);
}

/// The variables that programs outside an AppImage must not see, by name.
pub proof fn lemma_appimage_names(name: Seq<char>)
    ensures
        appimage_names().contains(name) <==> {
            ||| name == "APPDIR"@
            ||| name == "APPIMAGE"@
            ||| name == "BABL_PATH"@
            ||| name == "__EGL_VENDOR_LIBRARY_DIRS"@
            ||| name == "GBM_BACKENDS_PATH"@
            ||| name == "GCONV_PATH"@
            ||| name == "GDK_PIXBUF_MODULEDIR"@
            ||| name == "GDK_PIXBUF_MODULE_FILE"@
            ||| name == "GEGL_PATH"@
            ||| name == "GIO_MODULE_DIR"@
            ||| name == "GI_TYPELIB_PATH"@
            ||| name == "GSETTINGS_SCHEMA_DIR"@
            ||| name == "GST_PLUGIN_PATH"@
            ||| name == "GST_PLUGIN_SCANNER"@
            ||| name == "GST_PLUGIN_SYSTEM_PATH"@
            ||| name == "GST_PLUGIN_SYSTEM_PATH_1_0"@
            ||| name == "GTK_DATA_PREFIX"@
            ||| name == "GTK_EXE_PREFIX"@
            ||| name == "GTK_IM_MODULE_FILE"@
            ||| name == "GTK_PATH"@
            ||| name == "LD_LIBRARY_PATH"@
            ||| name == "LIBDECOR_PLUGIN_DIR"@
            ||| name == "LIBGL_DRIVERS_PATH"@
            ||| name == "LIBVA_DRIVERS_PATH"@
            ||| name == "PERLLIB"@
            ||| name == "PIPEWIRE_MODULE_DIR"@
            ||| name == "QT_PLUGIN_PATH"@
            ||| name == "SPA_PLUGIN_DIR"@
            ||| name == "TCL_LIBRARY"@
            ||| name == "TK_LIBRARY"@
            ||| name == "XTABLES_LIBDIR"@
        },
{
    let list = appimage_names();
    assert(list.len() == 31);
    if list.contains(name) {
        let i = list.index_of(name);
        assert(list[i] == name);
        assert(0 <= i < 31);
    }
    assert(list[0] == "APPDIR"@);
    assert(list[1] == "APPIMAGE"@);
    assert(list[2] == "BABL_PATH"@);
    assert(list[3] == "__EGL_VENDOR_LIBRARY_DIRS"@);
    assert(list[4] == "GBM_BACKENDS_PATH"@);
    assert(list[5] == "GCONV_PATH"@);
    assert(list[6] == "GDK_PIXBUF_MODULEDIR"@);
    assert(list[7] == "GDK_PIXBUF_MODULE_FILE"@);
    assert(list[8] == "GEGL_PATH"@);
    assert(list[9] == "GIO_MODULE_DIR"@);
    assert(list[10] == "GI_TYPELIB_PATH"@);
    assert(list[11] == "GSETTINGS_SCHEMA_DIR"@);
    assert(list[12] == "GST_PLUGIN_PATH"@);
    assert(list[13] == "GST_PLUGIN_SCANNER"@);
    assert(list[14] == "GST_PLUGIN_SYSTEM_PATH"@);
    assert(list[15] == "GST_PLUGIN_SYSTEM_PATH_1_0"@);
    assert(list[16] == "GTK_DATA_PREFIX"@);
    assert(list[17] == "GTK_EXE_PREFIX"@);
    assert(list[18] == "GTK_IM_MODULE_FILE"@);
    assert(list[19] == "GTK_PATH"@);
    assert(list[20] == "LD_LIBRARY_PATH"@);
    assert(list[21] == "LIBDECOR_PLUGIN_DIR"@);
    assert(list[22] == "LIBGL_DRIVERS_PATH"@);
    assert(list[23] == "LIBVA_DRIVERS_PATH"@);
    assert(list[24] == "PERLLIB"@);
    assert(list[25] == "PIPEWIRE_MODULE_DIR"@);
    assert(list[26] == "QT_PLUGIN_PATH"@);
    assert(list[27] == "SPA_PLUGIN_DIR"@);
    assert(list[28] == "TCL_LIBRARY"@);
    assert(list[29] == "TK_LIBRARY"@);
    assert(list[30] == "XTABLES_LIBDIR"@);
}

/// The texts of commands, and the directories and variables that programs see, are those of their laws.
pub proof fn lemma_text_calls(
    value: &str,
    command: &str,
    env: &Vec<(String, String)>,
    entries: &Vec<String>,
    mount: &str,
    quoted: String,
    whole: String,
    left: Vec<String>,
    names: Vec<&'static str>,
)
    requires
        call_ensures(escape, (value,), quoted),
        call_ensures(command_with_env, (command, env), whole),
        call_ensures(filter_entries, (entries, mount), left),
        call_ensures(appimage_variables, (), names),
    ensures
        quoted@ == escaped(value@),
        whole@ == with_assignments(env@, command@),
        text::texts(left@) == outside(text::texts(entries@), mount@),
        names@.map_values(|name: &'static str| name@) == appimage_names(),
{
}

} // verus!
