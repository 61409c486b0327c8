//! The lines of the error log: a timestamp, the `[ERROR]` tag, the scope in
//! brackets and the details on one line.

use vstd::prelude::*;
use vstd::string::*;

verus! {

/// What stands for one line break of the details in a log line.
pub open spec fn line_break_mark() -> Seq<char> {
    seq![' ', '|', ' ']
}

/// The details with each `'\n'` replaced by `" | "`.
pub open spec fn one_line(s: Seq<char>) -> Seq<char>
    decreases s.len(),
{
    if s.len() == 0 {
        Seq::empty()
    } else {
        one_line(s.drop_last()) + if s.last() == '\n' {
            line_break_mark()
        } else {
            seq![s.last()]
        }
    }
}

/// The line written for an error: `"{timestamp} [ERROR] [{scope}] {details}"`,
/// the details on one line.
pub open spec fn error_line(timestamp: Seq<char>, scope: Seq<char>, details: Seq<char>) -> Seq<
    char,
> {
    timestamp + " [ERROR] ["@ + scope + "] "@ + one_line(details)
}

/// Returns `details` with each line break replaced by `" | "`.
pub fn flatten_line_breaks(details: &str) -> (r: String)
    ensures
        r@ == one_line(details@),
{
    let n = details.unicode_len();
    let mut r = String::new();
    let mut i: usize = 0;
    while i < n
        invariant
            n == details@.len(),
            i <= n,
            r@ == one_line(details@.subrange(0, i as int)),
        decreases n - i,
    {
        let ghost before = details@.subrange(0, i as int);
        let c = details.get_char(i);
        if c == '\n' {
            proof {
                reveal_strlit(" | ");
            }
            r.append(" | ");
        } else {
            let piece = details.substring_char(i, i + 1);
            r.append(piece);
        }
        assert(details@.subrange(0, i + 1).drop_last() =~= before);
        i = i + 1;
    }
    assert(details@.subrange(0, n as int) =~= details@);
    r
}

/// Returns the log line for an error in `scope` with `details`, stamped with
/// `timestamp`.
pub fn format_error_line(timestamp: &str, scope: &str, details: &str) -> (r: String)
    ensures
        r@ == error_line(timestamp@, scope@, details@),
{
    let mut r = timestamp.to_owned();
    r.append(" [ERROR] [");
    r.append(scope);
    r.append("] ");
    let flat = flatten_line_breaks(details);
    r.append(flat.as_str());
    r
}

/// Details on one line hold no line break, and details without line breaks
/// are kept as they are.
pub proof fn law_error_details_on_one_line(details: Seq<char>)
    ensures
        !one_line(details).contains('\n'),
        !details.contains('\n') ==> one_line(details) == details,
    decreases details.len(),
{
    broadcast use vstd::seq_lib::group_seq_properties;

    if details.len() > 0 {
        let d = details.drop_last();
        law_error_details_on_one_line(d);
        assert(details =~= d.push(details.last()));
        assert(!line_break_mark().contains('\n')) by {
            assert(line_break_mark()[0] == ' ');
            assert(line_break_mark()[1] == '|');
            assert(line_break_mark()[2] == ' ');
        }
        if !details.contains('\n') {
            assert(!d.contains('\n'));
            assert(details.last() != '\n');
        }
    }
}

} // verus!
