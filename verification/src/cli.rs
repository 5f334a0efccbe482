//! What the command line asks for.

use crate::text::same_text;
use vstd::prelude::*;
use vstd::string::*;

verus! {

/// The place of the first `-cmd` among the arguments from `i` on; the end where
/// there is none.
pub open spec fn cmd_place(args: Seq<Seq<char>>, i: int) -> int
    decreases args.len() - i,
{
    if i >= args.len() || args[i] == "-cmd"@ {
        i
    } else {
        cmd_place(args, i + 1)
    }
}

fn tail(args: &Vec<String>, from: usize) -> (r: Vec<String>)
    requires
        from <= args@.len(),
    ensures
        r@ == args@.skip(from as int),
{
    let mut v: Vec<String> = Vec::new();
    let mut i: usize = from;
    while i < args.len()
        invariant
            from <= i <= args@.len(),
            v@ == args@.subrange(from as int, i as int),
        decreases args@.len() - i,
    {
        v.push(args[i].clone());
        assert(v@ =~= args@.subrange(from as int, i + 1));
        i += 1;
    }
    assert(v@ =~= args@.skip(from as int));
    v
}

/// Parts the command of the terminal from the other arguments. It is all that
/// stands behind the first `-cmd`, and a login shell where there is none.
pub fn extract_cmd(args: Vec<String>) -> (r: (Vec<String>, Vec<String>))
    ensures
        ({
            let p = cmd_place(crate::text::views(args@), 0);
            if p < args@.len() {
                r.0@ == args@.skip(p + 1) && r.1@ == args@.take(p)
            } else {
                crate::text::views(r.0@) == seq!["bash"@, "-l"@] && r.1@ == args@
            }
        }),
        !crate::text::views(r.1@).contains("-cmd"@),
        crate::text::views(args@).contains("-cmd"@) ==> crate::text::views(args@)
            == crate::text::views(r.1@) + seq!["-cmd"@] + crate::text::views(r.0@),
        !crate::text::views(args@).contains("-cmd"@) ==> crate::text::views(r.0@) == seq![
            "bash"@,
            "-l"@,
        ] && r.1@ == args@,
{
    let mut filtered: Vec<String> = Vec::new();
    let ghost views = crate::text::views(args@);
    let mut i: usize = 0;
    while i < args.len()
        invariant
            i <= args@.len(),
            views == crate::text::views(args@),
            filtered@ == args@.take(i as int),
            cmd_place(views, 0) == cmd_place(views, i as int),
            forall|j: int| 0 <= j < i ==> #[trigger] views[j] != "-cmd"@,
        decreases args@.len() - i,
    {
        assert(views[i as int] == args@[i as int]@);
        if same_text(args[i].as_str(), "-cmd") {
            let cmd = tail(&args, i + 1);
            proof {
                assert(views.contains(views[i as int]));
                let others = crate::text::views(filtered@);
                assert(forall|j: int| 0 <= j < i ==> others[j] == #[trigger] views[j]);
                assert(!others.contains("-cmd"@)) by {
                    if others.contains("-cmd"@) {
                        let k = others.index_of("-cmd"@);
                        assert(others[k] == views[k]);
                    }
                }
                assert(views =~= others + seq!["-cmd"@] + crate::text::views(cmd@));
            }
            return (cmd, filtered);
        }
        filtered.push(args[i].clone());
        assert(filtered@ =~= args@.take(i + 1));
        i += 1;
    }
    assert(!views.contains("-cmd"@));
    let mut cmd: Vec<String> = Vec::new();
    cmd.push("bash".to_string());
    cmd.push("-l".to_string());
    assert(crate::text::views(cmd@) =~= seq!["bash"@, "-l"@]);
    (cmd, args)
}

/// Arguments with a `-cmd` among them are the other arguments, the `-cmd` and
/// the command; the other arguments hold no further one.
pub proof fn arguments_fall_apart(args: Seq<Seq<char>>, i: int)
    requires
        0 <= i <= args.len(),
    ensures
        i <= cmd_place(args, i) <= args.len(),
        cmd_place(args, i) < args.len() ==> args[cmd_place(args, i)] == "-cmd"@,
        forall|j: int| i <= j < cmd_place(args, i) ==> #[trigger] args[j] != "-cmd"@,
    decreases args.len() - i,
{
    if i < args.len() && args[i] != "-cmd"@ {
        arguments_fall_apart(args, i + 1);
    }
}

/// Whether the host's own keyboard and screen stay out of the terminal: where it
/// is asked for, and where a web server runs, so that the terminals' output does
/// not mix with its messages.
pub fn is_non_interactive(non_interactive: bool, ni: bool, serve: Option<u16>) -> (r: bool)
    ensures
        r == (non_interactive || ni || serve is Some),
{
    non_interactive || ni || serve.is_some()
}

} // verus!
