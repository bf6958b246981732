//! The texts of the task pane.

use vstd::prelude::*;

use crate::mcp::types::{TaskInfo, TaskStatus};
use crate::text::{append, owned};

verus! {

/// The label of a task status.
pub open spec fn status_label_of(status: TaskStatus) -> Seq<char> {
    match status {
        TaskStatus::Working => "Working"@,
        TaskStatus::Completed => "Completed"@,
        TaskStatus::Failed => "Failed"@,
        TaskStatus::Cancelled => "Cancelled"@,
        TaskStatus::InputRequired => "Input Required"@,
    }
}

/// The status label names the task's actual status: different statuses get
/// different labels, and each status is shown by its own name (a failed
/// task as "Failed", a cancelled one as "Cancelled", and so on).
pub proof fn lemma_status_labels_name_status(a: TaskStatus, b: TaskStatus)
    ensures
        a != b ==> status_label_of(a) != status_label_of(b),
        status_label_of(a) == "Working"@ <==> a == TaskStatus::Working,
        status_label_of(a) == "Completed"@ <==> a == TaskStatus::Completed,
        status_label_of(a) == "Failed"@ <==> a == TaskStatus::Failed,
        status_label_of(a) == "Cancelled"@ <==> a == TaskStatus::Cancelled,
        status_label_of(a) == "Input Required"@ <==> a == TaskStatus::InputRequired,
{
    reveal_strlit("Working");
    reveal_strlit("Completed");
    reveal_strlit("Failed");
    reveal_strlit("Cancelled");
    reveal_strlit("Input Required");
    assert("Working"@.len() == 7);
    assert("Completed"@.len() == 9);
    assert("Failed"@.len() == 6);
    assert("Cancelled"@.len() == 9);
    assert("Input Required"@.len() == 14);
    assert("Completed"@[1] != "Cancelled"@[1]);
    assert("Completed"@ != "Cancelled"@);
}

/// The label shown for a task status.
pub fn status_display(status: TaskStatus) -> (r: &'static str)
    ensures
        r@ == status_label_of(status),
{
    match status {
        TaskStatus::Working => "Working",
        TaskStatus::Completed => "Completed",
        TaskStatus::Failed => "Failed",
        TaskStatus::Cancelled => "Cancelled",
        TaskStatus::InputRequired => "Input Required",
    }
}

/// The line for a failed task: its status message, or "(no details)".
pub fn failure_line(status_message: &Option<String>) -> (r: String)
    ensures
        r@ == "  Task failed: "@ + match status_message {
            Some(m) => m@,
            None => "(no details)"@,
        },
{
    let mut s = owned("  Task failed: ");
    match status_message {
        Some(m) => append(&mut s, m.as_str()),
        None => append(&mut s, "(no details)"),
    }
    s
}

/// The dimmed status-message line; empty without a message.
pub fn status_message_line(status_message: &Option<String>) -> (r: String)
    ensures
        r@ == match status_message {
            Some(m) => "  "@ + m@,
            None => Seq::empty(),
        },
{
    match status_message {
        Some(m) => {
            let mut s = owned("  ");
            append(&mut s, m.as_str());
            s
        },
        None => String::new(),
    }
}


/// The header of the task pane.
pub fn task_header(task_id: &str) -> (r: String)
    ensures
        r@ == " Task: "@ + task_id@ + " "@,
{
    let mut s = owned(" Task: ");
    append(&mut s, task_id);
    append(&mut s, " ");
    s
}

/// The label on the progress gauge of a working task: its progress
/// message, or "Working...".
pub fn gauge_label(message: &Option<String>) -> (r: String)
    ensures
        r@ == match message {
            Some(m) => m@,
            None => "Working..."@,
        },
{
    match message {
        Some(m) => m.clone(),
        None => owned("Working..."),
    }
}

/// The detail lines shown below the header for each status.
pub open spec fn detail_lines_of(status: TaskStatus, status_message: Option<Seq<char>>) -> Seq<Seq<char>> {
    let note = match status_message {
        Some(m) => "  "@ + m,
        None => Seq::empty(),
    };
    match status {
        TaskStatus::Working => seq!["  [x] Cancel task"@],
        TaskStatus::Completed => seq!["  Task completed successfully."@, note],
        TaskStatus::Failed => seq![
            "  Task failed: "@ + match status_message {
                Some(m) => m,
                None => "(no details)"@,
            },
        ],
        TaskStatus::Cancelled => seq!["  Task was cancelled."@, note],
        TaskStatus::InputRequired => seq!["  Input required -- not supported in TUI v1"@],
    }
}

/// The detail lines of the task pane.
pub fn detail_lines(task: &TaskInfo) -> (r: Vec<String>)
    ensures
        r@.map_values(|s: String| s@) == detail_lines_of(
            task.status,
            match task.status_message {
                Some(m) => Some(m@),
                None => None,
            },
        ),
{
    let mut r: Vec<String> = Vec::new();
    match task.status {
        TaskStatus::Working => {
            r.push(owned("  [x] Cancel task"));
        },
        TaskStatus::Completed => {
            r.push(owned("  Task completed successfully."));
            r.push(status_message_line(&task.status_message));
        },
        TaskStatus::Failed => {
            r.push(failure_line(&task.status_message));
        },
        TaskStatus::Cancelled => {
            r.push(owned("  Task was cancelled."));
            r.push(status_message_line(&task.status_message));
        },
        TaskStatus::InputRequired => {
            r.push(owned("  Input required -- not supported in TUI v1"));
        },
    }
    assert(r@.map_values(|s: String| s@) =~= detail_lines_of(
        task.status,
        match task.status_message {
            Some(m) => Some(m@),
            None => None,
        },
    ));
    r
}

} // verus!
