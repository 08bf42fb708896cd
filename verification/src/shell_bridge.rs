//! Command lines for the processes the shell bridge starts.

use vstd::prelude::*;
use vstd::string::*;
use crate::text::{chars_of, join, owned, push_all, push_char, string_from, strings_of};

verus! {

/// The operating system the shell runs on, for the decisions that differ by platform.
#[derive(Debug, Clone, Copy, PartialEq, Eq, Structural)]
pub enum Platform {
    MacOs,
    Linux,
    Windows,
}

/// `s` with every `c` replaced by `rep`.
pub open spec fn replace_char(s: Seq<char>, c: char, rep: Seq<char>) -> Seq<char>
    decreases s.len(),
{
    if s.len() == 0 {
        Seq::empty()
    } else {
        replace_char(s.drop_last(), c, rep) + if s.last() == c {
            rep
        } else {
            seq![s.last()]
        }
    }
}

/// `s` with every `c` replaced by `rep`.
pub fn replace_all(s: &Vec<char>, c: char, rep: &Vec<char>) -> (r: Vec<char>)
    ensures
        r@ == replace_char(s@, c, rep@),
{
    let mut r: Vec<char> = Vec::new();
    let mut i: usize = 0;
    assert(s@.take(0) =~= Seq::<char>::empty());
    while i < s.len()
        invariant
            i <= s.len(),
            r@ == replace_char(s@.take(i as int), c, rep@),
        decreases s.len() - i,
    {
        assert(s@.take(i + 1).drop_last() =~= s@.take(i as int));
        assert(s@.take(i + 1).last() == s@[i as int]);
        let ghost before = r@;
        if s[i] == c {
            let mut j: usize = 0;
            while j < rep.len()
                invariant
                    j <= rep.len(),
                    r@ == before + rep@.take(j as int),
                decreases rep.len() - j,
            {
                r.push(rep[j]);
                j = j + 1;
                assert(r@ =~= before + rep@.take(j as int));
            }
            assert(rep@.take(rep.len() as int) =~= rep@);
        } else {
            r.push(s[i]);
            assert(r@ =~= before + seq![s@[i as int]]);
        }
        i = i + 1;
    }
    assert(s@.take(s.len() as int) =~= s@);
    r
}

/// A character the Unix shell takes literally in a word.
pub open spec fn unix_safe(c: char) -> bool {
    ('a' <= c <= 'z') || ('A' <= c <= 'Z') || ('0' <= c <= '9') || c == '-' || c == '_' || c
        == '.' || c == '/' || c == ':' || c == '=' || c == '@'
}

/// A character `cmd` takes literally in a word.
pub open spec fn cmd_safe(c: char) -> bool {
    unix_safe(c) || c == '\\'
}

/// `s` written so the platform's shell passes it to the program as one
/// argument: left alone when every character is safe, otherwise quoted — single
/// quotes on Unix (with `'` written `'\''`), double quotes for `cmd` (with `"`
/// doubled).
pub open spec fn escaped_argument(platform: Platform, s: Seq<char>) -> Seq<char> {
    if platform == Platform::Windows {
        if s.len() == 0 {
            seq!['"', '"']
        } else if forall|i: int| 0 <= i < s.len() ==> cmd_safe(#[trigger] s[i]) {
            s
        } else {
            seq!['"'] + replace_char(s, '"', seq!['"', '"']) + seq!['"']
        }
    } else {
        if s.len() == 0 {
            seq!['\'', '\'']
        } else if forall|i: int| 0 <= i < s.len() ==> unix_safe(#[trigger] s[i]) {
            s
        } else {
            seq!['\''] + replace_char(s, '\'', seq!['\'', '\\', '\'', '\'']) + seq!['\'']
        }
    }
}

fn all_safe(s: &Vec<char>, windows: bool) -> (b: bool)
    ensures
        b == if windows {
            forall|i: int| 0 <= i < s@.len() ==> cmd_safe(#[trigger] s@[i])
        } else {
            forall|i: int| 0 <= i < s@.len() ==> unix_safe(#[trigger] s@[i])
        },
{
    let mut i: usize = 0;
    while i < s.len()
        invariant
            i <= s.len(),
            forall|k: int|
                0 <= k < i ==> if windows {
                    cmd_safe(#[trigger] s@[k])
                } else {
                    unix_safe(s@[k])
                },
        decreases s.len() - i,
    {
        let c = s[i];
        let safe = ('a' <= c && c <= 'z') || ('A' <= c && c <= 'Z') || ('0' <= c && c <= '9') || c
            == '-' || c == '_' || c == '.' || c == '/' || c == ':' || c == '=' || c == '@' || (
        windows && c == '\\');
        if !safe {
            return false;
        }
        i = i + 1;
    }
    true
}

/// Escape a string for safe inclusion in a shell command on `platform`.
///
/// On Unix the result is one word that a POSIX shell reads back, with no
/// splitting or expansion, as exactly `s` (see
/// [`law_escaped_arguments_survive_the_shell`]).
pub fn shell_escape(platform: Platform, s: &str) -> (r: String)
    ensures
        r@ == escaped_argument(platform, s@),
        platform != Platform::Windows ==> shell_word(r@) == Some(s@),
{
    proof {
        if platform != Platform::Windows {
            law_escaped_arguments_survive_the_shell(platform, s@);
        }
    }
    let chars = chars_of(s);
    let windows = platform == Platform::Windows;
    if windows {
        if chars.len() == 0 {
            let r = owned("\"\"");
            proof {
                reveal_strlit("\"\"");
            }
            assert(r@ =~= seq!['"', '"']);
            return r;
        }
        if all_safe(&chars, true) {
            return owned(s);
        }
        let mut r = String::new();
        push_char(&mut r, '"');
        let rep: Vec<char> = vec!['"', '"'];
        push_all(&mut r, &replace_all(&chars, '"', &rep));
        push_char(&mut r, '"');
        assert(r@ =~= escaped_argument(platform, s@));
        r
    } else {
        if chars.len() == 0 {
            let r = owned("''");
            proof {
                reveal_strlit("''");
            }
            assert(r@ =~= seq!['\'', '\'']);
            return r;
        }
        if all_safe(&chars, false) {
            return owned(s);
        }
        let mut r = String::new();
        push_char(&mut r, '\'');
        let rep: Vec<char> = vec!['\'', '\\', '\'', '\''];
        push_all(&mut r, &replace_all(&chars, '\'', &rep));
        push_char(&mut r, '\'');
        assert(r@ =~= escaped_argument(platform, s@));
        r
    }
}

/// Where a POSIX shell is in reading one word: outside quotes, inside single
/// quotes, just after a backslash, or past something this reading does not take
/// literally (an expansion, a word break, a line continuation).
pub enum WordState {
    Bare,
    Quoted,
    Escaped,
    Broken,
}

/// A word as far as the shell has read it: the characters it stands for so
/// far, and where the reading is.
pub struct WordReading {
    pub text: Seq<char>,
    pub state: WordState,
}

/// The shell reads one more character of a word. Outside quotes it takes the
/// safe characters literally, opens a single quote, or escapes the next
/// character; inside single quotes everything up to the closing quote is
/// literal.
pub open spec fn read_word_char(r: WordReading, c: char) -> WordReading {
    match r.state {
        WordState::Bare => if c == '\'' {
            WordReading { text: r.text, state: WordState::Quoted }
        } else if c == '\\' {
            WordReading { text: r.text, state: WordState::Escaped }
        } else if unix_safe(c) {
            WordReading { text: r.text.push(c), state: WordState::Bare }
        } else {
            WordReading { text: r.text, state: WordState::Broken }
        },
        WordState::Quoted => if c == '\'' {
            WordReading { text: r.text, state: WordState::Bare }
        } else {
            WordReading { text: r.text.push(c), state: WordState::Quoted }
        },
        WordState::Escaped => if c == '\n' {
            WordReading { text: r.text, state: WordState::Broken }
        } else {
            WordReading { text: r.text.push(c), state: WordState::Bare }
        },
        WordState::Broken => r,
    }
}

/// The reading after the characters of `t`, in order, starting from `r`.
pub open spec fn read_word_from(r: WordReading, t: Seq<char>) -> WordReading
    decreases t.len(),
{
    if t.len() == 0 {
        r
    } else {
        read_word_char(read_word_from(r, t.drop_last()), t.last())
    }
}

/// The argument a POSIX shell passes for the text `t`, when `t` is one word
/// that it takes literally, with no expansion or word break.
pub open spec fn shell_word(t: Seq<char>) -> Option<Seq<char>> {
    let r = read_word_from(WordReading { text: Seq::empty(), state: WordState::Bare }, t);
    if t.len() > 0 && r.state is Bare {
        Some(r.text)
    } else {
        None
    }
}

proof fn lemma_read_word_concat(r: WordReading, a: Seq<char>, b: Seq<char>)
    ensures
        read_word_from(r, a + b) == read_word_from(read_word_from(r, a), b),
    decreases b.len(),
{
    if b.len() == 0 {
        assert(a + b =~= a);
    } else {
        assert((a + b).drop_last() =~= a + b.drop_last());
        assert((a + b).last() == b.last());
        lemma_read_word_concat(r, a, b.drop_last());
    }
}

proof fn lemma_read_safe_word(text: Seq<char>, t: Seq<char>)
    requires
        forall|i: int| 0 <= i < t.len() ==> unix_safe(#[trigger] t[i]),
    ensures
        read_word_from(WordReading { text, state: WordState::Bare }, t) == (WordReading {
            text: text + t,
            state: WordState::Bare,
        }),
    decreases t.len(),
{
    if t.len() == 0 {
        assert(text + t =~= text);
    } else {
        assert forall|i: int| 0 <= i < t.drop_last().len() implies unix_safe(
            #[trigger] t.drop_last()[i],
        ) by {
            assert(t.drop_last()[i] == t[i]);
        }
        lemma_read_safe_word(text, t.drop_last());
        assert(unix_safe(t[t.len() - 1]));
        assert((text + t.drop_last()).push(t.last()) =~= text + t);
    }
}

proof fn lemma_read_push(r: WordReading, t: Seq<char>, c: char)
    ensures
        read_word_from(r, t.push(c)) == read_word_char(read_word_from(r, t), c),
{
    assert(t.push(c).drop_last() =~= t);
}

proof fn lemma_read_quoted(text: Seq<char>, s: Seq<char>)
    ensures
        read_word_from(
            WordReading { text, state: WordState::Quoted },
            replace_char(s, '\'', seq!['\'', '\\', '\'', '\'']),
        ) == (WordReading { text: text + s, state: WordState::Quoted }),
    decreases s.len(),
{
    let rep = seq!['\'', '\\', '\'', '\''];
    let start = WordReading { text, state: WordState::Quoted };
    if s.len() == 0 {
        assert(text + s =~= text);
    } else {
        let front = replace_char(s.drop_last(), '\'', rep);
        let piece = if s.last() == '\'' {
            rep
        } else {
            seq![s.last()]
        };
        lemma_read_word_concat(start, front, piece);
        lemma_read_quoted(text, s.drop_last());
        let mid = WordReading { text: text + s.drop_last(), state: WordState::Quoted };
        let e0 = Seq::<char>::empty();
        if s.last() == '\'' {
            assert(piece =~= e0.push('\'').push('\\').push('\'').push('\''));
            lemma_read_push(mid, e0, '\'');
            lemma_read_push(mid, e0.push('\''), '\\');
            lemma_read_push(mid, e0.push('\'').push('\\'), '\'');
            lemma_read_push(mid, e0.push('\'').push('\\').push('\''), '\'');
        } else {
            assert(piece =~= e0.push(s.last()));
            lemma_read_push(mid, e0, s.last());
        }
        assert((text + s.drop_last()).push(s.last()) =~= text + s);
    }
}

/// An escaped argument reaches the program exactly as it was given: the
/// shell reads [`escaped_argument`]'s output on Unix as one word, taken
/// literally, and that word is the string it was given. This is what makes an
/// argument safe to put on a command line: it can neither expand, nor break into
/// several words, nor end the command.
pub proof fn law_escaped_arguments_survive_the_shell(platform: Platform, s: Seq<char>)
    requires
        platform != Platform::Windows,
    ensures
        shell_word(escaped_argument(platform, s)) == Some(s),
{
    let bare = WordReading { text: Seq::<char>::empty(), state: WordState::Bare };
    let e = escaped_argument(platform, s);
    let e0 = Seq::<char>::empty();
    if s.len() == 0 {
        assert(e =~= e0.push('\'').push('\''));
        lemma_read_push(bare, e0, '\'');
        lemma_read_push(bare, e0.push('\''), '\'');
        assert(s =~= e0);
    } else if forall|i: int| 0 <= i < s.len() ==> unix_safe(#[trigger] s[i]) {
        lemma_read_safe_word(e0, s);
        assert(e0 + s =~= s);
    } else {
        let inner = replace_char(s, '\'', seq!['\'', '\\', '\'', '\'']);
        assert(e =~= (e0.push('\'') + inner).push('\''));
        lemma_read_push(bare, e0.push('\'') + inner, '\'');
        lemma_read_word_concat(bare, e0.push('\''), inner);
        lemma_read_push(bare, e0, '\'');
        lemma_read_quoted(e0, s);
        assert(e0 + s =~= s);
    }
}

/// The command line the shell bridge runs: the command, then each argument
/// escaped for the platform's shell, separated by spaces.
pub open spec fn command_line(platform: Platform, command: Seq<char>, args: Seq<Seq<char>>) -> Seq<
    char,
> {
    if args.len() == 0 {
        command
    } else {
        command + seq![' '] + join(
            args.map_values(|a: Seq<char>| escaped_argument(platform, a)),
            seq![' '],
        )
    }
}

/// Build the command line for a spawn request.
pub fn shell_command_line(platform: Platform, command: &str, args: &Vec<String>) -> (r: String)
    ensures
        r@ == command_line(platform, command@, strings_of(args@)),
{
    let mut r = owned(command);
    if args.len() == 0 {
        return r;
    }
    push_char(&mut r, ' ');
    let ghost head = r@;
    let ghost escaped = strings_of(args@).map_values(|a: Seq<char>| escaped_argument(platform, a));
    let mut i: usize = 0;
    assert(escaped.take(0) =~= Seq::<Seq<char>>::empty());
    assert(r@ =~= head + join(escaped.take(0), seq![' ']));
    while i < args.len()
        invariant
            i <= args.len(),
            escaped == strings_of(args@).map_values(
                |a: Seq<char>| escaped_argument(platform, a),
            ),
            r@ == head + join(escaped.take(i as int), seq![' ']),
        decreases args.len() - i,
    {
        assert(escaped.take(i + 1).drop_last() =~= escaped.take(i as int));
        assert(escaped.take(i + 1).last() == escaped[i as int]);
        assert(escaped[i as int] == escaped_argument(platform, args@[i as int]@));
        if i > 0 {
            push_char(&mut r, ' ');
        }
        let e = shell_escape(platform, args[i].as_str());
        r.append(e.as_str());
        i = i + 1;
        assert(r@ =~= head + join(escaped.take(i as int), seq![' ']));
    }
    assert(escaped.take(args.len() as int) =~= escaped);
    r
}

/// A command line as far as the shell has read it: the words it has finished,
/// the word it is reading, and whether that word has begun.
pub struct LineReading {
    pub words: Seq<Seq<char>>,
    pub word: WordReading,
    pub in_word: bool,
}

/// A word the shell has not started reading.
pub open spec fn fresh_word() -> WordReading {
    WordReading { text: Seq::empty(), state: WordState::Bare }
}

/// The shell reads one more character of a command line: an unquoted space
/// ends the word being read; anything else continues it.
pub open spec fn read_line_char(r: LineReading, c: char) -> LineReading {
    if r.word.state is Bare && c == ' ' {
        LineReading {
            words: if r.in_word {
                r.words.push(r.word.text)
            } else {
                r.words
            },
            word: fresh_word(),
            in_word: false,
        }
    } else {
        LineReading { words: r.words, word: read_word_char(r.word, c), in_word: true }
    }
}

/// The reading after the characters of `t`, in order, starting from `r`.
pub open spec fn read_line_from(r: LineReading, t: Seq<char>) -> LineReading
    decreases t.len(),
{
    if t.len() == 0 {
        r
    } else {
        read_line_char(read_line_from(r, t.drop_last()), t.last())
    }
}

/// The words a POSIX shell splits the command line `t` into, each as the
/// program receives it, when every word is one it takes literally.
pub open spec fn shell_words(t: Seq<char>) -> Option<Seq<Seq<char>>> {
    let r = read_line_from(LineReading { words: Seq::empty(), word: fresh_word(), in_word: false }, t);
    if r.word.state is Bare {
        Some(
            if r.in_word {
                r.words.push(r.word.text)
            } else {
                r.words
            },
        )
    } else {
        None
    }
}

proof fn lemma_read_line_push(r: LineReading, t: Seq<char>, c: char)
    ensures
        read_line_from(r, t.push(c)) == read_line_char(read_line_from(r, t), c),
{
    assert(t.push(c).drop_last() =~= t);
}

proof fn lemma_read_line_concat(r: LineReading, a: Seq<char>, b: Seq<char>)
    ensures
        read_line_from(r, a + b) == read_line_from(read_line_from(r, a), b),
    decreases b.len(),
{
    if b.len() == 0 {
        assert(a + b =~= a);
    } else {
        assert((a + b).drop_last() =~= a + b.drop_last());
        assert((a + b).last() == b.last());
        lemma_read_line_concat(r, a, b.drop_last());
    }
}

/// Text that reads as one word, without breaking, adds to the current word and
/// splits nothing.
proof fn lemma_read_line_within_word(
    words: Seq<Seq<char>>,
    w: WordReading,
    in_word: bool,
    t: Seq<char>,
)
    requires
        !(read_word_from(w, t).state is Broken),
    ensures
        read_line_from(LineReading { words, word: w, in_word }, t) == (LineReading {
            words,
            word: read_word_from(w, t),
            in_word: in_word || t.len() > 0,
        }),
    decreases t.len(),
{
    if t.len() > 0 {
        let front = read_word_from(w, t.drop_last());
        if front.state is Broken {
            assert(read_word_char(front, t.last()).state is Broken);
        }
        lemma_read_line_within_word(words, w, in_word, t.drop_last());
        if front.state is Bare && t.last() == ' ' {
            assert(!unix_safe(' '));
            assert(read_word_char(front, t.last()).state is Broken);
        }
    }
}

/// The escaped arguments, separated by spaces, read as exactly those arguments.
proof fn lemma_read_escaped_arguments(platform: Platform, words: Seq<Seq<char>>, args: Seq<Seq<char>>)
    requires
        platform != Platform::Windows,
        args.len() > 0,
    ensures
        read_line_from(
            LineReading { words, word: fresh_word(), in_word: false },
            join(args.map_values(|a: Seq<char>| escaped_argument(platform, a)), seq![' ']),
        ) == (LineReading {
            words: words + args.drop_last(),
            word: WordReading { text: args.last(), state: WordState::Bare },
            in_word: true,
        }),
    decreases args.len(),
{
    let escaped = args.map_values(|a: Seq<char>| escaped_argument(platform, a));
    let start = LineReading { words, word: fresh_word(), in_word: false };
    let last = escaped_argument(platform, args.last());
    law_escaped_arguments_survive_the_shell(platform, args.last());
    assert(escaped.last() == last);
    if args.len() == 1 {
        lemma_read_line_within_word(words, fresh_word(), false, last);
        assert(words + args.drop_last() =~= words);
    } else {
        let front = args.drop_last();
        assert(escaped.drop_last() =~= front.map_values(|a: Seq<char>| escaped_argument(platform, a)));
        lemma_read_escaped_arguments(platform, words, front);
        let head = join(escaped.drop_last(), seq![' ']);
        lemma_read_line_concat(start, head + seq![' '], last);
        lemma_read_line_concat(start, head, seq![' ']);
        let after_head = read_line_from(start, head);
        assert(seq![' '] =~= Seq::<char>::empty().push(' '));
        lemma_read_line_push(after_head, Seq::<char>::empty(), ' ');
        assert((words + front.drop_last()).push(front.last()) =~= words + front);
        lemma_read_line_within_word(words + front, fresh_word(), false, last);
    }
}

/// Whatever the command, each argument reaches the program as its own word,
/// exactly as given: on Unix the shell splits the command line into the
/// command's own words followed by the arguments. The command is the caller's
/// to write; it only has to be one the shell reads to its end, with no quote or
/// escape left open.
pub proof fn law_arguments_reach_the_program_as_given(
    platform: Platform,
    command: Seq<char>,
    args: Seq<Seq<char>>,
)
    requires
        platform != Platform::Windows,
        shell_words(command) is Some,
    ensures
        shell_words(command_line(platform, command, args)) == Some(shell_words(command).unwrap() + args),
{
    if args.len() == 0 {
        assert(shell_words(command).unwrap() + args =~= shell_words(command).unwrap());
    } else {
        let start = LineReading { words: Seq::empty(), word: fresh_word(), in_word: false };
        let escaped = args.map_values(|a: Seq<char>| escaped_argument(platform, a));
        let rest = join(escaped, seq![' ']);
        let after_command = read_line_from(start, command);
        lemma_read_line_concat(start, command + seq![' '], rest);
        lemma_read_line_concat(start, command, seq![' ']);
        assert(seq![' '] =~= Seq::<char>::empty().push(' '));
        lemma_read_line_push(after_command, Seq::<char>::empty(), ' ');
        let words = shell_words(command).unwrap();
        lemma_read_escaped_arguments(platform, words, args);
        assert((words + args.drop_last()).push(args.last()) =~= words + args);
    }
}

/// How to run a command line on `platform`: the program, and its arguments.
///
/// On Unix the command runs through the user's login shell (`shell`, the
/// `SHELL` the environment names, or `/bin/sh` without one), so a version
/// manager (rbenv, nvm, mise) sets up PATH the same way it would in a terminal.
/// Windows has no login-shell convention, so the command goes through `cmd /C`.
pub open spec fn invocation(platform: Platform, shell: Option<Seq<char>>, command: Seq<char>) -> (
    Seq<char>,
    Seq<Seq<char>>,
) {
    if platform == Platform::Windows {
        ("cmd"@, seq!["/C"@, command])
    } else {
        (
            match shell {
                Some(s) => s,
                None => "/bin/sh"@,
            },
            seq!["-l"@, "-c"@, command],
        )
    }
}

/// How to run a command line on `platform`.
pub fn shell_invocation(platform: Platform, shell: Option<String>, command: &str) -> (r: (
    String,
    Vec<String>,
))
    ensures
        (r.0@, strings_of(r.1@)) == invocation(platform, crate::text::opt_chars(shell), command@),
{
    let mut args: Vec<String> = Vec::new();
    if platform == Platform::Windows {
        args.push(owned("/C"));
        args.push(owned(command));
        assert(strings_of(args@) =~= seq!["/C"@, command@]);
        (owned("cmd"), args)
    } else {
        args.push(owned("-l"));
        args.push(owned("-c"));
        args.push(owned(command));
        assert(strings_of(args@) =~= seq!["-l"@, "-c"@, command@]);
        let program = match shell {
            Some(s) => s,
            None => owned("/bin/sh"),
        };
        (program, args)
    }
}

/// What the shell component does for an event.
#[derive(Debug, Clone, Copy, PartialEq, Eq, Structural)]
pub enum ShellAction {
    /// Start a process with streaming output.
    Spawn,
    /// Stop a running process.
    Kill,
    /// Report one process.
    Status,
    /// Report every process.
    List,
}

/// The shell action each event names.
pub open spec fn shell_action_named(event: Seq<char>) -> Option<ShellAction> {
    if event == "spawn"@ {
        Some(ShellAction::Spawn)
    } else if event == "kill"@ {
        Some(ShellAction::Kill)
    } else if event == "status"@ {
        Some(ShellAction::Status)
    } else if event == "list"@ {
        Some(ShellAction::List)
    } else {
        None
    }
}

/// The shell action for `event`, or `None` for an unknown event.
pub fn shell_action(event: &str) -> (a: Option<ShellAction>)
    ensures
        a == shell_action_named(event@),
{
    if crate::text::is_literal(event, "spawn") {
        Some(ShellAction::Spawn)
    } else if crate::text::is_literal(event, "kill") {
        Some(ShellAction::Kill)
    } else if crate::text::is_literal(event, "status") {
        Some(ShellAction::Status)
    } else if crate::text::is_literal(event, "list") {
        Some(ShellAction::List)
    } else {
        None
    }
}


/// One of a child process's output pipes.
#[derive(Debug, Clone, Copy, PartialEq, Eq, Structural)]
pub enum Pipe {
    Stdout,
    Stderr,
}

/// The event name a line from `pipe` is forwarded under.
pub open spec fn pipe_event(pipe: Pipe) -> Seq<char> {
    match pipe {
        Pipe::Stdout => "stdout"@,
        Pipe::Stderr => "stderr"@,
    }
}

/// What happened while a child process's output was being watched.
#[derive(Debug)]
pub enum OutputEvent {
    /// A line arrived on a pipe.
    Line(Pipe, String),
    /// A pipe reached its end, or could no longer be read.
    Closed(Pipe),
    /// The process manager asked for the process to be killed.
    KillRequested,
}

/// An output event as a value.
pub enum OutputEventView {
    Line(Pipe, Seq<char>),
    Closed(Pipe),
    KillRequested,
}

impl View for OutputEvent {
    type V = OutputEventView;

    open spec fn view(&self) -> OutputEventView {
        match self {
            OutputEvent::Line(p, l) => OutputEventView::Line(*p, l@),
            OutputEvent::Closed(p) => OutputEventView::Closed(*p),
            OutputEvent::KillRequested => OutputEventView::KillRequested,
        }
    }
}

/// What to do after an output event.
#[derive(Debug, PartialEq, Eq)]
pub enum OutputAction {
    /// Send the line to the web layer under this event name.
    Forward { event: String, line: String },
    /// Keep reading.
    Continue,
    /// Both pipes are done: wait for the exit status and report it.
    AwaitExit,
    /// Kill the child, report an exit without a code, and record it as exited.
    Kill,
}

/// An output action as a value.
pub enum OutputActionView {
    Forward(Seq<char>, Seq<char>),
    Continue,
    AwaitExit,
    Kill,
}

impl View for OutputAction {
    type V = OutputActionView;

    open spec fn view(&self) -> OutputActionView {
        match self {
            OutputAction::Forward { event, line } => OutputActionView::Forward(event@, line@),
            OutputAction::Continue => OutputActionView::Continue,
            OutputAction::AwaitExit => OutputActionView::AwaitExit,
            OutputAction::Kill => OutputActionView::Kill,
        }
    }
}

/// Where watching a child's output stands: which pipes are still open, and
/// whether watching has stopped (both closed, or a kill was requested).
#[derive(Debug, Clone, Copy, PartialEq, Eq, Structural)]
pub struct OutputWatch {
    pub stdout_open: bool,
    pub stderr_open: bool,
    pub stopped: bool,
}

/// The watch after `event`, and what to do about it.
pub open spec fn watch_step(w: OutputWatch, event: OutputEventView) -> (OutputWatch, OutputActionView) {
    if w.stopped {
        (w, OutputActionView::Continue)
    } else {
        match event {
            OutputEventView::KillRequested => (
                OutputWatch { stopped: true, ..w },
                OutputActionView::Kill,
            ),
            OutputEventView::Line(p, l) => (w, OutputActionView::Forward(pipe_event(p), l)),
            OutputEventView::Closed(p) => {
                let next = match p {
                    Pipe::Stdout => OutputWatch { stdout_open: false, ..w },
                    Pipe::Stderr => OutputWatch { stderr_open: false, ..w },
                };
                if !next.stdout_open && !next.stderr_open {
                    (OutputWatch { stopped: true, ..next }, OutputActionView::AwaitExit)
                } else {
                    (next, OutputActionView::Continue)
                }
            },
        }
    }
}

impl OutputWatch {
    /// Start watching a child with these pipes attached.
    pub fn new(has_stdout: bool, has_stderr: bool) -> (w: Self)
        ensures
            w == (OutputWatch { stdout_open: has_stdout, stderr_open: has_stderr, stopped: false }),
    {
        OutputWatch { stdout_open: has_stdout, stderr_open: has_stderr, stopped: false }
    }

    /// Both pipes are done, so there is nothing left to read.
    pub fn all_closed(&self) -> (b: bool)
        ensures
            b == (!self.stdout_open && !self.stderr_open),
    {
        !self.stdout_open && !self.stderr_open
    }

    /// Take in one event and say what to do about it.
    pub fn step(&mut self, event: OutputEvent) -> (a: OutputAction)
        ensures
            (*final(self), a@) == watch_step(*old(self), event@),
    {
        if self.stopped {
            return OutputAction::Continue;
        }
        match event {
            OutputEvent::KillRequested => {
                self.stopped = true;
                OutputAction::Kill
            },
            OutputEvent::Line(p, line) => {
                let name = match p {
                    Pipe::Stdout => owned("stdout"),
                    Pipe::Stderr => owned("stderr"),
                };
                OutputAction::Forward { event: name, line }
            },
            OutputEvent::Closed(p) => {
                match p {
                    Pipe::Stdout => {
                        self.stdout_open = false;
                    },
                    Pipe::Stderr => {
                        self.stderr_open = false;
                    },
                }
                if !self.stdout_open && !self.stderr_open {
                    self.stopped = true;
                    OutputAction::AwaitExit
                } else {
                    OutputAction::Continue
                }
            },
        }
    }
}

/// Once a kill is requested, watching stops, and nothing that arrives later is
/// forwarded or acted on.
pub proof fn law_nothing_follows_a_kill(w: OutputWatch, later: OutputEventView)
    requires
        !w.stopped,
    ensures
        watch_step(w, OutputEventView::KillRequested).1 == OutputActionView::Kill,
        watch_step(watch_step(w, OutputEventView::KillRequested).0, later).1
            == OutputActionView::Continue,
{
}

/// The exit status is awaited exactly when the last open pipe closes, and a line
/// is forwarded under its own pipe's name.
pub proof fn law_exit_is_awaited_when_both_pipes_close(w: OutputWatch, event: OutputEventView)
    requires
        !w.stopped,
    ensures
        watch_step(w, event).1 == OutputActionView::AwaitExit <==> (event matches OutputEventView::Closed(p)
            && match p {
            Pipe::Stdout => !w.stderr_open,
            Pipe::Stderr => !w.stdout_open,
        }),
        event matches OutputEventView::Line(p, l) ==> watch_step(w, event).1
            == OutputActionView::Forward(pipe_event(p), l),
{
}

} // verus!
