//! External program invocations as plain values: the request that the host
//! runs and the response that it hands back, and how a response is read.
use vstd::prelude::*;
use crate::text::{append_chars, append_str, chars_to_string, slice_vec, str_chars, trim_seq, trim_vec};

verus! {

/// A program to run, with its arguments and working directory.
#[derive(Debug, Clone)]
pub struct CmdExecRequest {
    pub program: String,
    pub args: Vec<String>,
    pub cwd: Option<String>,
}

/// What a finished program reported.
#[derive(Debug, Clone)]
pub struct CmdExecResponse {
    pub success: bool,
    pub exit_code: Option<i32>,
    pub stdout: String,
    pub stderr: String,
}

/// The request for running `program` with `args` in `cwd`.
pub fn exec_request(program: &str, args: &[&str], cwd: Option<&str>) -> (r: CmdExecRequest)
    ensures
        r.program@ == program@,
        r.args@.len() == args@.len(),
        forall|k: int| 0 <= k < args@.len() ==> #[trigger] r.args@[k]@ == args@[k]@,
        r.cwd matches Some(c) ==> cwd matches Some(d) && c@ == d@,
        r.cwd is None <==> cwd is None,
{
    let mut out: Vec<String> = Vec::new();
    let mut i: usize = 0;
    while i < args.len()
        invariant
            i <= args.len(),
            out@.len() == i,
            forall|k: int| 0 <= k < i ==> #[trigger] out@[k]@ == args@[k]@,
        decreases args.len() - i,
    {
        out.push(String::from_str(args[i]));
        i += 1;
    }
    CmdExecRequest {
        program: String::from_str(program),
        args: out,
        cwd: match cwd {
            Some(c) => Some(String::from_str(c)),
            None => None,
        },
    }
}

/// The message a failed run is reported with: trimmed standard error,
/// else trimmed standard output, else a fixed text.
pub open spec fn failure_detail(stdout: Seq<char>, stderr: Seq<char>) -> Seq<char> {
    if trim_seq(stderr).len() != 0 {
        trim_seq(stderr)
    } else if trim_seq(stdout).len() != 0 {
        trim_seq(stdout)
    } else {
        "Process exited with non-zero exit code"@
    }
}

/// How `run_binary` reads a response: the trimmed output on success, an
/// error naming the program otherwise.
pub open spec fn binary_outcome(program: Seq<char>, success: bool, stdout: Seq<char>, stderr: Seq<char>) -> Result<Seq<char>, Seq<char>> {
    if success {
        Ok(trim_seq(stdout))
    } else {
        Err("Error executing '"@ + program + "': "@ + failure_detail(stdout, stderr))
    }
}

/// Reads a response as `run_binary` does.
pub fn binary_result(program: &str, resp: &CmdExecResponse) -> (r: Result<String, String>)
    ensures
        match r {
            Ok(s) => binary_outcome(program@, resp.success, resp.stdout@, resp.stderr@) == Ok::<Seq<char>, Seq<char>>(s@),
            Err(e) => binary_outcome(program@, resp.success, resp.stdout@, resp.stderr@) == Err::<Seq<char>, Seq<char>>(e@),
        },
{
    let out = str_chars(resp.stdout.as_str());
    let tout = trim_vec(&out);
    if resp.success {
        return Ok(chars_to_string(&tout));
    }
    let err = str_chars(resp.stderr.as_str());
    let terr = trim_vec(&err);
    let mut msg = str_chars("Error executing '");
    append_str(&mut msg, program);
    append_str(&mut msg, "': ");
    if terr.len() != 0 {
        append_chars(&mut msg, &terr);
    } else if tout.len() != 0 {
        append_chars(&mut msg, &tout);
    } else {
        append_str(&mut msg, "Process exited with non-zero exit code");
    }
    Err(chars_to_string(&msg))
}

} // verus!
