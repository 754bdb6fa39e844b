//! Running other programs: what to run, and what came of it.

use vstd::prelude::*;

use crate::text::{chars_of, join, join_of, lossy, lossy_text, string_of, strings, trim, trimmed};

verus! {

/// A program to run, with its arguments.
#[derive(Debug)]
pub struct Invocation {
    pub program: String,
    pub args: Vec<String>,
}

/// An invocation as its texts.
pub ghost struct InvocationView {
    pub program: Seq<char>,
    pub args: Seq<Seq<char>>,
}

impl View for Invocation {
    type V = InvocationView;

    open spec fn view(&self) -> InvocationView {
        InvocationView { program: self.program@, args: strings(self.args@) }
    }
}

impl Invocation {
    /// A program with no arguments yet.
    pub fn of(program: &str) -> (r: Self)
        ensures
            r@ == (InvocationView { program: program@, args: Seq::empty() }),
    {
        let r = Invocation { program: String::from_str(program), args: Vec::new() };
        assert(strings(r.args@) =~= Seq::<Seq<char>>::empty());
        r
    }

    /// The same with one more argument.
    pub fn arg(self, text: &str) -> (r: Self)
        ensures
            r@ == (InvocationView { program: self@.program, args: self@.args.push(text@) }),
    {
        let mut out = self;
        let ghost before = out.args@;
        out.args.push(String::from_str(text));
        assert(strings(out.args@) =~= strings(before).push(text@));
        out
    }
}

/// What is said of a run that did not succeed, and left this on its error
/// output.
pub open spec fn failure_text(
    program: Seq<char>,
    args: Seq<Seq<char>>,
    stderr: Seq<char>,
) -> Seq<char> {
    program + " "@ + join_of(args, " "@) + " failed: "@ + trimmed(stderr)
}

/// What a run of a program gives, from the texts on its two outputs.
pub fn outcome(
    program: &str,
    args: &Vec<String>,
    success: bool,
    stdout: String,
    stderr: &str,
) -> (r: Result<String, String>)
    ensures
        success ==> (r matches Ok(out) && out@ == stdout@),
        !success ==> (r matches Err(e) && e@ == failure_text(program@, strings(args@), stderr@)),
{
    if success {
        return Ok(stdout);
    }
    let mut out = String::from_str(program);
    out.append(" ");
    out.append(join(args, " ").as_str());
    out.append(" failed: ");
    let cs = chars_of(stderr);
    out.append(string_of(trim(cs.as_slice())).as_str());
    Err(out)
}

/// What a run of a program gives: its output when it succeeded, else a line
/// that says what went wrong.
pub fn reply(
    program: &str,
    args: &Vec<String>,
    success: bool,
    stdout: &[u8],
    stderr: &[u8],
) -> (r: Result<String, String>)
    ensures
        success ==> (r matches Ok(out) && out@ == lossy_text(stdout@)),
        !success ==> (r matches Err(e) && e@ == failure_text(
            program@,
            strings(args@),
            lossy_text(stderr@),
        )),
{
    outcome(program, args, success, lossy(stdout), lossy(stderr).as_str())
}

} // verus!
