//! Which editor opens a file, with which arguments, and what the status bar
//! says once it has been started. Reading the environment, resolving the
//! path and starting the process are the caller's part.
use vstd::prelude::*;

use crate::git::args_view;
use crate::text::{
    chars_of, chars_equal, decimal, decimal_chars, extend_chars, extend_str, file_name_of,
    is_white_space, char_is_white_space, path_file_name, slice_chars, string_from_chars,
    trim_start,
};

verus! {

/// How to start an editor: the program, its arguments, and the name the
/// status bar gives it.
pub struct EditorLaunch {
    pub program: String,
    pub args: Vec<String>,
    pub label: String,
}

/// Where the editor is to open: the path, and `":line"` when a line is
/// given.
pub open spec fn editor_location(absolute: Seq<char>, line: Option<usize>) -> Seq<char> {
    match line {
        Some(n) => absolute + seq![':'] + decimal(n as nat),
        None => absolute,
    }
}

/// The name of an editor command: the last component of its path, or the
/// command itself when it has none.
pub open spec fn editor_basename(program: Seq<char>) -> Seq<char> {
    match path_file_name(program) {
        Some(name) => name,
        None => program,
    }
}

/// Editors that take `--goto path:line`.
pub open spec fn is_goto_editor(name: Seq<char>) -> bool {
    name == "code"@ || name == "codium"@ || name == "cursor"@ || name == "windsurf"@
}

/// Editors that take `path:line` as it is.
pub open spec fn is_plain_editor(name: Seq<char>) -> bool {
    name == "zed"@ || name == "subl"@ || name == "mate"@
}

/// `program`, `args` and `label` make the launch `launch`.
pub open spec fn launch_is(
    launch: EditorLaunch,
    program: Seq<char>,
    args: Seq<Seq<char>>,
    label: Seq<char>,
) -> bool {
    &&& launch.program@ == program
    &&& args_view(launch.args@) == args
    &&& launch.label@ == label
}

fn location_chars(absolute: &str, line: Option<usize>) -> (r: Vec<char>)
    ensures
        r@ == editor_location(absolute@, line),
{
    let mut r = chars_of(absolute);
    match line {
        Some(n) => {
            r.push(':');
            let digits = decimal_chars(n);
            extend_chars(&mut r, &digits);
        },
        None => {},
    }
    r
}

fn is_literal(v: &Vec<char>, lit: &str) -> (r: bool)
    ensures
        r == (v@ == lit@),
{
    let l = chars_of(lit);
    chars_equal(v, &l)
}

/// The launch of a known GUI editor for a file and optional line: VS Code
/// and its kin get `--goto` and the location, Zed, Sublime Text and
/// TextMate the location alone; any other editor is `None`.
pub fn build_known_editor_launch(program: &str, absolute: &str, line: Option<usize>) -> (r: Option<
    EditorLaunch,
>)
    ensures
        ({
            let name = editor_basename(program@);
            let location = editor_location(absolute@, line);
            if is_goto_editor(name) {
                r matches Some(l) && launch_is(l, program@, seq!["--goto"@, location], name)
            } else if is_plain_editor(name) {
                r matches Some(l) && launch_is(l, program@, seq![location], name)
            } else {
                r is None
            }
        }),
{
    let program_chars = chars_of(program);
    let basename = match file_name_of(&program_chars) {
        Some(name) => name,
        None => program_chars,
    };
    let location = location_chars(absolute, line);
    let goto = is_literal(&basename, "code") || is_literal(&basename, "codium") || is_literal(
        &basename,
        "cursor",
    ) || is_literal(&basename, "windsurf");
    let plain = is_literal(&basename, "zed") || is_literal(&basename, "subl") || is_literal(
        &basename,
        "mate",
    );
    proof {
        reveal_strlit("code");
        reveal_strlit("codium");
        reveal_strlit("cursor");
        reveal_strlit("windsurf");
        reveal_strlit("zed");
        reveal_strlit("subl");
        reveal_strlit("mate");
    }
    if !goto && !plain {
        return None;
    }
    let mut args: Vec<String> = Vec::new();
    if goto {
        args.push("--goto".to_owned());
    }
    args.push(string_from_chars(&location));
    assert(goto ==> args_view(args@) =~= seq!["--goto"@, location@]);
    assert(!goto ==> args_view(args@) =~= seq![location@]);
    Some(
        EditorLaunch {
            program: program.to_owned(),
            args,
            label: string_from_chars(&basename),
        },
    )
}

/// The first word of a text: its first run of characters that are not
/// white space, or nothing.
pub open spec fn first_word(s: Seq<char>) -> Seq<char> {
    let t = trim_start(s);
    t.take(word_end(t, 0))
}

/// The end of the run of characters that are not white space from `from`.
pub open spec fn word_end(s: Seq<char>, from: int) -> int
    decreases s.len() - from,
{
    if from < 0 || from >= s.len() {
        s.len() as int
    } else if is_white_space(s[from]) {
        from
    } else {
        word_end(s, from + 1)
    }
}

fn first_word_chars(v: &Vec<char>) -> (r: Vec<char>)
    ensures
        r@ == first_word(v@),
{
    let n = v.len();
    let mut i: usize = 0;
    assert(v@.skip(0) =~= v@);
    while i < n && char_is_white_space(v[i])
        invariant
            n == v@.len(),
            i <= n,
            trim_start(v@) == trim_start(v@.skip(i as int)),
        decreases n - i,
    {
        assert(v@.skip(i as int).drop_first() =~= v@.skip(i + 1));
        assert(v@.skip(i as int)[0] == v@[i as int]);
        i = i + 1;
    }
    let ghost t = v@.skip(i as int);
    assert(trim_start(t) == t);
    let mut j = i;
    while j < n && !char_is_white_space(v[j])
        invariant
            n == v@.len(),
            i <= j <= n,
            t == v@.skip(i as int),
            word_end(t, 0) == word_end(t, j - i),
        decreases n - j,
    {
        j = j + 1;
    }
    let r = slice_chars(v, i, j);
    assert(r@ =~= t.take(j - i));
    r
}

/// The launch that an editor setting asks for. `setting` is the first of
/// the variables `CMUX_DIFF_EDITOR`, `VISUAL` and `EDITOR` that is set; its
/// first word names the editor, which must be a known one. With no setting,
/// or one with no word, macOS opens the file with its default application
/// and other systems have no editor. A line of zero is no line.
pub fn editor_launch(setting: Option<&str>, absolute: &str, line: Option<usize>, on_macos: bool) -> (r:
    Result<EditorLaunch, String>)
    ensures
        ({
            let line_given = match line {
                Some(n) => if n > 0 {
                    Some(n)
                } else {
                    None
                },
                None => None,
            };
            let word = match setting {
                Some(value) => first_word(value@),
                None => Seq::empty(),
            };
            let name = editor_basename(word);
            let location = editor_location(absolute@, line_given);
            if word.len() > 0 {
                if is_goto_editor(name) {
                    r matches Ok(l) && launch_is(l, word, seq!["--goto"@, location], name)
                } else if is_plain_editor(name) {
                    r matches Ok(l) && launch_is(l, word, seq![location], name)
                } else {
                    r matches Err(message) && message@ == "Unsupported editor command `"@ + word
                        + "`. Use a GUI editor like `code` or unset EDITOR."@
                }
            } else if on_macos {
                r matches Ok(l) && launch_is(l, "open"@, seq![location], "the default macOS app"@)
            } else {
                r matches Err(message) && message@
                    == "No supported editor was found. Set CMUX_DIFF_EDITOR to a GUI editor command such as `code`."@
            }
        }),
{
    let line = match line {
        Some(n) => if n > 0 {
            Some(n)
        } else {
            None
        },
        None => None,
    };
    let word: Vec<char> = match setting {
        Some(value) => {
            let chars = chars_of(value);
            first_word_chars(&chars)
        },
        None => Vec::new(),
    };
    if word.len() > 0 {
        let program = string_from_chars(&word);
        match build_known_editor_launch(program.as_str(), absolute, line) {
            Some(launch) => {
                return Ok(launch);
            },
            None => {
                let mut message = chars_of("Unsupported editor command `");
                extend_chars(&mut message, &word);
                extend_str(&mut message, "`. Use a GUI editor like `code` or unset EDITOR.");
                return Err(string_from_chars(&message));
            },
        }
    }
    if on_macos {
        let location = location_chars(absolute, line);
        let mut args: Vec<String> = Vec::new();
        args.push(string_from_chars(&location));
        assert(args_view(args@) =~= seq![location@]);
        Ok(
            EditorLaunch {
                program: "open".to_owned(),
                args,
                label: "the default macOS app".to_owned(),
            },
        )
    } else {
        Err(
            "No supported editor was found. Set CMUX_DIFF_EDITOR to a GUI editor command such as `code`.".to_owned(),
        )
    }
}

/// The status message once the editor has started: `"Opened name:line in
/// label."`, the name being the file's (`"file"` when the path has none).
pub fn opened_message(path: &str, line: Option<usize>, label: &str) -> (r: String)
    ensures
        r@ == "Opened "@ + match path_file_name(path@) {
            Some(name) => name,
            None => "file"@,
        } + match line {
            Some(n) => seq![':'] + decimal(n as nat),
            None => Seq::empty(),
        } + " in "@ + label@ + "."@,
{
    let mut text = chars_of("Opened ");
    let path_chars = chars_of(path);
    match file_name_of(&path_chars) {
        Some(name) => extend_chars(&mut text, &name),
        None => extend_str(&mut text, "file"),
    }
    match line {
        Some(n) => {
            text.push(':');
            let digits = decimal_chars(n);
            extend_chars(&mut text, &digits);
        },
        None => {},
    }
    extend_str(&mut text, " in ");
    extend_str(&mut text, label);
    extend_str(&mut text, ".");
    string_from_chars(&text)
}

} // verus!
