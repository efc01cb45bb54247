//! Exporting the log: which files belong to it, and how they are combined into one.
use vstd::prelude::*;
use crate::text::{push_str, push_string, string_from_chars};

verus! {

/// Whether a file in the log directory is one of the app's logs, active or rotated:
/// named after the app and ending in `.log`.
pub open spec fn is_app_log_spec(file_name: Seq<char>, app_name: Seq<char>) -> bool {
    crate::text::has_prefix(file_name, app_name) && crate::device::ends_with(file_name, ".log"@)
}

pub fn is_app_log(file_name: &str, app_name: &str) -> (r: bool)
    ensures
        r == is_app_log_spec(file_name@, app_name@),
{
    let v = crate::text::chars_of(file_name);
    let starts = crate::text::chars_start_with_at(&v, 0, app_name);
    assert(v@.subrange(0, v@.len() as int) =~= v@);
    let suffix = crate::text::chars_of(".log");
    proof {
        reveal_strlit(".log");
    }
    if suffix.len() > v.len() {
        return false;
    }
    let tail = crate::network::sub_chars(&v, v.len() - suffix.len(), v.len());
    let tail_text = string_from_chars(tail.as_slice());
    starts && crate::detect::str_eq(tail_text.as_str(), ".log")
}

/// One file's section of the export: a header naming it, its contents, and a line break
/// if the contents do not end with one.
pub open spec fn section(name: Seq<char>, contents: Seq<char>) -> Seq<char> {
    let body = "=== "@ + name + " ===\n"@ + contents;
    if contents.len() > 0 && contents.last() == '\n' {
        body
    } else {
        body + "\n"@
    }
}

/// The export of a run of files, oldest first.
pub open spec fn combined(files: Seq<(String, String)>) -> Seq<char>
    decreases files.len(),
{
    if files.len() == 0 {
        Seq::empty()
    } else {
        combined(files.drop_last()) + section(files.last().0@, files.last().1@)
    }
}

/// Combines the log files, already in order, into one export.
pub fn combine_logs(files: &[(String, String)]) -> (r: String)
    ensures
        r@ == combined(files@),
{
    let mut out: Vec<char> = Vec::new();
    let mut i: usize = 0;
    while i < files.len()
        invariant
            i <= files@.len(),
            out@ == combined(files@.subrange(0, i as int)),
        decreases files@.len() - i,
    {
        let ghost before = out@;
        push_str(&mut out, "=== ");
        push_string(&mut out, &files[i].0);
        push_str(&mut out, " ===\n");
        push_string(&mut out, &files[i].1);
        let contents = crate::text::chars_of(files[i].1.as_str());
        let ends_with_newline = contents.len() > 0 && contents[contents.len() - 1] == '\n';
        if !ends_with_newline {
            push_str(&mut out, "\n");
        }
        proof {
            let pre = files@.subrange(0, i as int + 1);
            assert(pre.drop_last() =~= files@.subrange(0, i as int));
            assert(pre.last() == files@[i as int]);
            assert(out@ =~= before + section(files@[i as int].0@, files@[i as int].1@));
        }
        i = i + 1;
    }
    assert(files@.subrange(0, i as int) =~= files@);
    string_from_chars(out.as_slice())
}

} // verus!
