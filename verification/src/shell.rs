//! The interpreter's registry, builtin policies, and per-line decisions.
//!
//! The session loop itself performs terminal and process I/O and therefore
//! lives outside this crate; for every line it reads it calls [`Shell::plan`]
//! here to decide what to do, and the small policy functions below to decide
//! each builtin's outcome.

use vstd::prelude::*;
use vstd::string::StrSliceExecFns;
use vstd::string::StringExecFns;
use crate::parse::{split_ws, str_eq, tokenize};

verus! {

/// The result of running a builtin: an informational success or failure
/// code, or a request to end the session. Codes are never propagated to the
/// process's own exit status; only `Exit` influences loop control.
#[derive(Clone, Copy, Debug, PartialEq, Eq, Structural)]
pub enum CommandResult {
    Success(isize),
    Failure(isize),
    Exit,
}

/// The closed set of in-process commands.
#[derive(Clone, Copy, Debug, PartialEq, Eq, Structural)]
pub enum BuiltinKind {
    Cd,
    Exit,
    Help,
    Pwd,
}

/// The line that shortcut expansion yields: every `~` replaced,
/// character for character and independently of its position, by the home
/// path; every other character kept.
pub open spec fn expand_spec(line: Seq<char>, home: Seq<char>) -> Seq<char>
    decreases line.len(),
{
    if line.len() == 0 {
        Seq::empty()
    } else if line[0] == '~' {
        home + expand_spec(line.drop_first(), home)
    } else {
        seq![line[0]] + expand_spec(line.drop_first(), home)
    }
}

/// One registry entry: a command name, its help description, and which
/// in-process operation it performs.
pub struct Builtin {
    pub name: String,
    pub desc: String,
    pub kind: BuiltinKind,
}

/// The interpreter: owns the ordered builtin registry, built once at
/// construction and read-only afterwards.
pub struct Shell {
    pub builtins: Vec<Builtin>,
}

/// The position of the first registry entry named `name`, or nothing when
/// no entry carries that name. Lookup is exact and case-sensitive: no
/// partial matching, no aliasing.
pub open spec fn first_match_idx(bs: Seq<Builtin>, name: Seq<char>) -> Option<int>
    decreases bs.len(),
{
    if bs.len() == 0 {
        None
    } else if bs[0].name@ == name {
        Some(0)
    } else {
        match first_match_idx(bs.drop_first(), name) {
            Option::None => None,
            Option::Some(i) => Some(i + 1),
        }
    }
}

/// When no entry carries the name, the first match is nothing.
proof fn lemma_first_match_none(bs: Seq<Builtin>, name: Seq<char>)
    requires
        forall|k: int| 0 <= k < bs.len() ==> bs[k].name@ != name,
    ensures
        first_match_idx(bs, name) is None,
    decreases bs.len(),
{
    if bs.len() > 0 {
        let t = bs.drop_first();
        assert forall|k: int| 0 <= k < t.len() implies t[k].name@ != name by {
            assert(t[k] == bs[k + 1]);
        }
        lemma_first_match_none(t, name);
    }
}

/// An entry named `name` at `i`, with no earlier such entry, is the first
/// match.
proof fn lemma_first_match_at(bs: Seq<Builtin>, name: Seq<char>, i: int)
    requires
        0 <= i < bs.len(),
        bs[i].name@ == name,
        forall|k: int| 0 <= k < i ==> bs[k].name@ != name,
    ensures
        first_match_idx(bs, name) == Some(i),
    decreases i,
{
    if i > 0 {
        let t = bs.drop_first();
        assert(t[i - 1] == bs[i]);
        assert forall|k: int| 0 <= k < i - 1 implies t[k].name@ != name by {
            assert(t[k] == bs[k + 1]);
        }
        lemma_first_match_at(t, name, i - 1);
    }
}

impl Shell {
    /// The fixed registry: `cd`, `exit`, `help`, `pwd`, in this order.
    pub open spec fn wf(self) -> bool {
        &&& self.builtins@.len() == 4
        &&& self.builtins@[0].name@ == "cd"@
        &&& self.builtins@[0].kind == BuiltinKind::Cd
        &&& self.builtins@[1].name@ == "exit"@
        &&& self.builtins@[1].kind == BuiltinKind::Exit
        &&& self.builtins@[2].name@ == "help"@
        &&& self.builtins@[2].kind == BuiltinKind::Help
        &&& self.builtins@[3].name@ == "pwd"@
        &&& self.builtins@[3].kind == BuiltinKind::Pwd
    }

    pub fn new() -> (s: Shell)
        ensures
            s.wf(),
            s.builtins@[0].desc@ == "change working directory"@,
            s.builtins@[1].desc@ == "exit the shell"@,
            s.builtins@[2].desc@ == "print a help message"@,
            s.builtins@[3].desc@ == "print working directory"@,
    {
        let mut builtins: Vec<Builtin> = Vec::new();
        builtins.push(
            Builtin {
                name: "cd".to_owned(),
                desc: "change working directory".to_owned(),
                kind: BuiltinKind::Cd,
            },
        );
        builtins.push(
            Builtin {
                name: "exit".to_owned(),
                desc: "exit the shell".to_owned(),
                kind: BuiltinKind::Exit,
            },
        );
        builtins.push(
            Builtin {
                name: "help".to_owned(),
                desc: "print a help message".to_owned(),
                kind: BuiltinKind::Help,
            },
        );
        builtins.push(
            Builtin {
                name: "pwd".to_owned(),
                desc: "print working directory".to_owned(),
                kind: BuiltinKind::Pwd,
            },
        );
        Shell { builtins }
    }

    /// Rewrites a line by replacing every occurrence of the home-directory
    /// shortcut `~`, wherever it stands, by the home path; a line is
    /// returned unchanged, byte for byte, when the home value is absent.
    /// Expansion is purely textual: no quoting exists to contain it.
    pub fn expand_shortcuts(&self, line: &str, home: Option<&str>) -> (r: String)
        ensures
            match home {
                Option::None => r@ == line@,
                Option::Some(h) => r@ == expand_spec(line@, h@),
            },
    {
        match home {
            Option::None => line.to_owned(),
            Option::Some(h) => {
                let len = line.unicode_len();
                let mut out = String::new();
                let mut i: usize = 0;
                proof {
                    assert(line@.skip(0) =~= line@);
                    assert(out@ + expand_spec(line@, h@) =~= expand_spec(line@, h@));
                }
                while i < len
                    invariant
                        len == line@.len(),
                        i <= len,
                        expand_spec(line@, h@) == out@ + expand_spec(line@.skip(i as int), h@),
                    decreases len - i,
                {
                    let ghost rest = line@.skip(i as int);
                    let ghost out0 = out@;
                    proof {
                        assert(rest[0] == line@[i as int]);
                        assert(rest.drop_first() =~= line@.skip(i as int + 1));
                    }
                    let c = line.get_char(i);
                    if c == '~' {
                        out.append(h);
                        proof {
                            assert(expand_spec(rest, h@) == h@ + expand_spec(
                                rest.drop_first(),
                                h@,
                            ));
                            assert(out0 + (h@ + expand_spec(rest.drop_first(), h@)) =~= (out0
                                + h@) + expand_spec(rest.drop_first(), h@));
                        }
                    } else {
                        let piece = line.substring_char(i, i + 1);
                        out.append(piece);
                        proof {
                            assert(piece@ =~= seq![line@[i as int]]);
                            assert(expand_spec(rest, h@) == seq![rest[0]] + expand_spec(
                                rest.drop_first(),
                                h@,
                            ));
                            assert(out0 + (piece@ + expand_spec(rest.drop_first(), h@)) =~= (out0
                                + piece@) + expand_spec(rest.drop_first(), h@));
                        }
                    }
                    i = i + 1;
                }
                proof {
                    assert(line@.skip(len as int) =~= Seq::<char>::empty());
                    assert(out@ + expand_spec(line@.skip(len as int), h@) =~= out@);
                }
                out
            },
        }
    }

    /// Exact, case-sensitive lookup of a command name: the first registry
    /// entry with that name, or nothing when no entry carries it.
    pub fn lookup<'a>(&'a self, name: &str) -> (r: Option<&'a Builtin>)
        ensures
            match first_match_idx(self.builtins@, name@) {
                Option::Some(i) => match r {
                    Option::Some(b) => *b == self.builtins@[i],
                    Option::None => false,
                },
                Option::None => r is None,
            },
    {
        let n = self.builtins.len();
        let mut i: usize = 0;
        while i < n
            invariant
                n == self.builtins@.len(),
                i <= n,
                forall|k: int| 0 <= k < i ==> self.builtins@[k].name@ != name@,
            decreases n - i,
        {
            if str_eq(self.builtins[i].name.as_str(), name) {
                proof {
                    lemma_first_match_at(self.builtins@, name@, i as int);
                }
                return Some(&self.builtins[i]);
            }
            i = i + 1;
        }
        proof {
            lemma_first_match_none(self.builtins@, name@);
        }
        None
    }
}

/// A builtin's help line: its name left-aligned in a column of width 20,
/// then a separator, then its description.
pub open spec fn pad_spec(name: Seq<char>) -> Seq<char> {
    if name.len() >= 20 {
        name
    } else {
        name + Seq::new((20 - name.len()) as nat, |i: int| ' ')
    }
}

pub open spec fn help_line_spec(b: Builtin) -> Seq<char> {
    pad_spec(b.name@) + " - "@ + b.desc@
}

/// A help line begins with its own builtin's name and nothing before it:
/// together with [`Shell::help_lines`]'s contract, which gives one line
/// per entry in registry order, the help table shows every registered
/// name exactly once, in registry order.
pub proof fn lemma_help_line_shows_name(b: Builtin)
    ensures
        help_line_spec(b).len() > b.name@.len(),
        help_line_spec(b).take(b.name@.len() as int) == b.name@,
{
    reveal_strlit(" - ");
    assert(help_line_spec(b).take(b.name@.len() as int) =~= b.name@);
}

impl Shell {
    /// The table that the help builtin prints, one line per registered
    /// builtin, in registry order. The caller prints the banner and these
    /// lines; the content is decided here so the table always matches the
    /// registry.
    pub fn help_lines(&self) -> (lines: Vec<String>)
        ensures
            lines@.len() == self.builtins@.len(),
            forall|i: int|
                0 <= i < lines@.len() ==> lines@[i]@ == help_line_spec(self.builtins@[i]),
    {
        let mut lines: Vec<String> = Vec::new();
        let n = self.builtins.len();
        let mut bi: usize = 0;
        while bi < n
            invariant
                n == self.builtins@.len(),
                bi <= n,
                lines@.len() == bi,
                forall|i: int|
                    0 <= i < bi ==> lines@[i]@ == help_line_spec(self.builtins@[i]),
            decreases n - bi,
        {
            let b = &self.builtins[bi];
            let mut line: String = b.name.clone();
            let mut w: usize = b.name.as_str().unicode_len();
            let ghost name_len = b.name@.len() as int;
            proof {
                assert(line@ =~= b.name@ + Seq::new(0, |i: int| ' '));
            }
            while w < 20
                invariant
                    name_len == b.name@.len(),
                    name_len <= w,
                    w <= 20 || w == name_len,
                    line@ == b.name@ + Seq::new((w - name_len) as nat, |i: int| ' '),
                decreases 20 - w,
            {
                let ghost l0 = line@;
                line.append(" ");
                proof {
                    reveal_strlit(" ");
                    assert(l0 + " "@ =~= b.name@ + Seq::new(
                        (w + 1 - name_len) as nat,
                        |i: int| ' ',
                    ));
                }
                w = w + 1;
            }
            proof {
                if name_len >= 20 {
                    assert(line@ =~= b.name@);
                } else {
                    assert(w == 20);
                }
                assert(line@ == pad_spec(b.name@));
            }
            line.append(" - ");
            line.append(b.desc.as_str());
            proof {
                assert(line@ == help_line_spec(self.builtins@[bi as int]));
            }
            lines.push(line);
            bi = bi + 1;
        }
        lines
    }
}

/// What the session must do with one input line: nothing for a blank
/// line, run a builtin on the remaining words, or spawn an external
/// program and wait for it.
pub enum Action {
    Nothing,
    RunBuiltin(BuiltinKind, Vec<String>),
    External(String, Vec<String>),
}

/// The words of an input line after shortcut expansion.
pub open spec fn line_words(line: Seq<char>, home: Option<Seq<char>>) -> Seq<Seq<char>> {
    match home {
        Option::None => split_ws(line),
        Option::Some(h) => split_ws(expand_spec(line, h)),
    }
}

/// Owned copies of all words but the first: the arguments of the command
/// that the first word names.
fn args_of(toks: &Vec<&str>) -> (args: Vec<String>)
    requires
        toks@.len() >= 1,
    ensures
        args.deep_view() == toks.deep_view().skip(1),
{
    let ghost words = toks.deep_view();
    let mut args: Vec<String> = Vec::new();
    let mut i: usize = 1;
    proof {
        assert(args.deep_view() =~~= words.subrange(1, 1));
    }
    while i < toks.len()
        invariant
            1 <= i <= toks@.len(),
            words == toks.deep_view(),
            toks@.len() == words.len(),
            args.deep_view() == words.subrange(1, i as int),
        decreases toks@.len() - i,
    {
        let ghost a0 = args.deep_view();
        args.push(toks[i].to_owned());
        proof {
            assert(args.deep_view() =~~= a0 + seq![toks@[i as int]@]);
            assert(a0 + seq![words[i as int]] =~~= words.subrange(1, i as int + 1));
        }
        i = i + 1;
    }
    proof {
        assert(args.deep_view() =~~= words.skip(1));
    }
    args
}

impl Shell {
    /// One iteration's decision: expand the line, split it into words, and
    /// pick the action. The first word names the command; the rest are its
    /// arguments; a registered name beats an external program. The caller
    /// performs the chosen action and hands any builtin outcome to
    /// [`is_exit`].
    #[verifier::rlimit(50)]
    pub fn plan(&self, line: &str, home: Option<&str>) -> (a: Action)
        ensures
            ({
                let words = line_words(
                    line@,
                    match home {
                        Option::None => Option::None,
                        Option::Some(h) => Option::Some(h@),
                    },
                );
                match a {
                    Action::Nothing => words.len() == 0,
                    Action::RunBuiltin(kind, args) => words.len() > 0 && args.deep_view()
                        == words.skip(1) && match first_match_idx(self.builtins@, words[0]) {
                        Option::Some(i) => kind == self.builtins@[i].kind,
                        Option::None => false,
                    },
                    Action::External(name, args) => words.len() > 0 && name@ == words[0]
                        && args.deep_view() == words.skip(1) && first_match_idx(
                        self.builtins@,
                        words[0],
                    ) is None,
                }
            }),
    {
        let expanded = self.expand_shortcuts(line, home);
        let toks = tokenize(expanded.as_str());
        let ghost words = toks.deep_view();
        if toks.len() == 0 {
            return Action::Nothing;
        }
        let name: String = toks[0].to_owned();
        let args = args_of(&toks);
        proof {
            assert(name@ == words[0]);
        }
        match self.lookup(name.as_str()) {
            Option::Some(b) => Action::RunBuiltin(b.kind, args),
            Option::None => Action::External(name, args),
        }
    }
}

/// The terminate builtin: ignores all arguments and asks the session to
/// end, unconditionally.
pub fn cmd_exit(_shell: &Shell, _args: &Vec<String>) -> (r: CommandResult)
    ensures
        r == CommandResult::Exit,
{
    CommandResult::Exit
}

/// The directory that change-directory targets: the first argument when
/// one is given (extra arguments are silently ignored), else the home
/// directory; nothing when no argument is given and home is absent.
pub open spec fn cd_target_spec(args: Seq<Seq<char>>, home: Option<Seq<char>>) -> Option<
    Seq<char>,
> {
    if args.len() > 0 {
        Some(args[0])
    } else {
        home
    }
}

/// Target selection for the change-directory builtin. The caller performs
/// the actual directory change and feeds its result to [`io_outcome`].
pub fn cd_target(args: &Vec<String>, home: Option<String>) -> (t: Option<String>)
    ensures
        t.deep_view() == cd_target_spec(args.deep_view(), home.deep_view()),
{
    if args.len() > 0 {
        let t = Some(args[0].clone());
        proof {
            assert(t.deep_view() =~~= cd_target_spec(args.deep_view(), home.deep_view()));
        }
        t
    } else {
        let ghost h = home;
        let t = home;
        proof {
            assert(t.deep_view() =~~= cd_target_spec(args.deep_view(), h.deep_view()));
        }
        t
    }
}

/// The diagnostic printed when a command name matches no builtin and no
/// external program of that name could be spawned.
pub fn not_found_message(name: &str) -> (r: String)
    ensures
        r@ == name@ + ": command not found"@,
{
    let mut r = name.to_owned();
    r.append(": command not found");
    r
}

/// The outcome policy shared by change-directory and
/// print-working-directory: a completed operation is `Success(0)`, a failed
/// one `Failure(1)`.
pub fn io_outcome(ok: bool) -> (r: CommandResult)
    ensures
        r == if ok {
            CommandResult::Success(0isize)
        } else {
            CommandResult::Failure(1isize)
        },
{
    if ok {
        CommandResult::Success(0)
    } else {
        CommandResult::Failure(1)
    }
}

/// Whether a builtin's outcome asks the session to end.
pub fn is_exit(r: &CommandResult) -> (b: bool)
    ensures
        b == (r is Exit),
{
    match r {
        CommandResult::Exit => true,
        _ => false,
    }
}

} // verus!
