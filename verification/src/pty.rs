//! What a terminal runs.

use vstd::prelude::*;
use vstd::string::*;

verus! {

/// The rows of a new terminal.
pub const INITIAL_ROWS: u16 = 24;

/// The columns of a new terminal.
pub const INITIAL_COLS: u16 = 80;

/// A program and what it is handed.
#[derive(Debug, Clone)]
pub struct PtyCommand {
    pub program: String,
    pub args: Vec<String>,
}

/// The program of a command and what it is handed: the command's words, or a
/// login shell where there are none.
pub open spec fn runs(cmd: Seq<String>, c: PtyCommand) -> bool {
    if cmd.len() == 0 {
        &&& c.program@ == "bash"@
        &&& crate::text::views(c.args@) == seq!["-l"@]
    } else {
        &&& c.program == cmd[0]
        &&& c.args@ == cmd.skip(1)
    }
}

/// Decides what a terminal runs.
pub fn pty_command(cmd: &Vec<String>) -> (r: PtyCommand)
    ensures
        runs(cmd@, r),
        cmd@.len() == 0 ==> r.program@ == "bash"@ && crate::text::views(r.args@) == seq!["-l"@],
        cmd@.len() > 0 ==> seq![r.program] + r.args@ == cmd@,
{
    let mut args: Vec<String> = Vec::new();
    if cmd.len() == 0 {
        args.push("-l".to_string());
        assert(crate::text::views(args@) =~= seq!["-l"@]);
        return PtyCommand { program: "bash".to_string(), args };
    }
    let mut i: usize = 1;
    while i < cmd.len()
        invariant
            1 <= i <= cmd@.len(),
            args@ == cmd@.subrange(1, i as int),
        decreases cmd@.len() - i,
    {
        args.push(cmd[i].clone());
        assert(args@ =~= cmd@.subrange(1, i + 1));
        i += 1;
    }
    assert(args@ =~= cmd@.skip(1));
    assert(seq![cmd@[0]] + args@ =~= cmd@);
    PtyCommand { program: cmd[0].clone(), args }
}

/// What of the host's own terminal takes part in a shared one.
#[derive(Debug, Clone, Copy, PartialEq, Eq, Structural)]
pub struct LocalShare {
    /// What is typed at the host goes into the shared terminal.
    pub stdin: bool,
    /// The host's terminal hands every key over at once.
    pub raw: bool,
    /// What the shared terminal shows is shown at the host too.
    pub stdout: bool,
}

impl LocalShare {
    /// What takes part where a host shares one terminal: its screen unless it
    /// stays out, and then its keyboard too if there is one.
    pub fn host(non_interactive: bool, stdin_is_terminal: bool) -> (r: LocalShare)
        ensures
            r.stdin == (!non_interactive && stdin_is_terminal),
            r.raw == r.stdin,
            r.stdout == !non_interactive,
    {
        let stdin = !non_interactive && stdin_is_terminal;
        LocalShare { stdin, raw: stdin, stdout: !non_interactive }
    }

    /// What takes part in a session of a web server: what comes in at the
    /// server, unless it stays out.
    pub fn server(non_interactive: bool) -> (r: LocalShare)
        ensures
            r.stdin == !non_interactive,
            !r.raw,
            !r.stdout,
    {
        LocalShare { stdin: !non_interactive, raw: false, stdout: false }
    }
}

/// The line that a server shows for a command names what a terminal runs: the
/// program and what it is handed, with blanks between.
pub proof fn preview_names_what_runs(cmd: Seq<String>, c: PtyCommand)
    requires
        runs(cmd, c),
    ensures
        crate::serve::command_line(cmd) == crate::text::joined(
            seq![c.program@] + crate::text::views(c.args@),
            " "@,
        ),
{
    let words = seq![c.program@] + crate::text::views(c.args@);
    if cmd.len() == 0 {
        reveal_strlit("bash -l");
        reveal_strlit("bash");
        reveal_strlit("-l");
        reveal_strlit(" ");
        assert(words.len() == 2);
        assert(words.drop_last() =~= seq!["bash"@]);
        assert(words.last() == "-l"@);
        assert(crate::text::joined(words.drop_last(), " "@) == "bash"@);
        assert(crate::text::joined(words, " "@) == "bash"@ + " "@ + "-l"@);
        assert("bash"@ + " "@ + "-l"@ =~= "bash -l"@);
    } else {
        assert(words =~= crate::text::views(cmd));
    }
}

} // verus!
