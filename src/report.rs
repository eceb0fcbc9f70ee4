use vstd::prelude::*;
use vstd::string::StringExecFns;

verus! {

/// The first line of a failure report: `<method>() failed: <message>`.
pub open spec fn failure_line(method_name: Seq<char>, message: Seq<char>) -> Seq<char> {
    method_name + "() failed: "@ + message
}

/// A follow-up line naming one underlying cause: `  Caused by: <message>`.
pub open spec fn cause_line(message: Seq<char>) -> Seq<char> {
    "  Caused by: "@ + message
}

/// The report for an error chain: the chain lists the error's own message
/// first, then the message of each of its sources in order.
pub open spec fn report_lines(method_name: Seq<char>, chain: Seq<Seq<char>>) -> Seq<Seq<char>> {
    Seq::new(
        chain.len(),
        |i: int|
            if i == 0 {
                failure_line(method_name, chain[0])
            } else {
                cause_line(chain[i])
            },
    )
}

/// Builds the lines that report the failure of `method_name`, given the
/// messages of the error and of its sources (error first). An empty chain
/// gives no lines.
pub fn log_error(method_name: &str, chain: &Vec<String>) -> (lines: Vec<String>)
    ensures
        lines@.map_values(|l: String| l@) == report_lines(method_name@, chain@.map_values(|m: String| m@)),
{
    let mut lines: Vec<String> = Vec::new();
    let mut i: usize = 0;
    while i < chain.len()
        invariant
            i <= chain@.len(),
            lines@.len() == i,
            forall|j: int|
                0 <= j < i ==> #[trigger] lines@[j]@ == report_lines(
                    method_name@,
                    chain@.map_values(|m: String| m@),
                )[j],
        decreases chain@.len() - i,
    {
        let line = if i == 0 {
            let mut first = String::from_str(method_name);
            first.append("() failed: ");
            first.append(chain[i].as_str());
            first
        } else {
            let mut cause = String::from_str("  Caused by: ");
            cause.append(chain[i].as_str());
            cause
        };
        lines.push(line);
        i += 1;
    }
    assert(lines@.map_values(|l: String| l@) =~= report_lines(
        method_name@,
        chain@.map_values(|m: String| m@),
    ));
    lines
}

} // verus!
