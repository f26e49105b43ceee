//! How one pyrometer run ended, and the label under which it is reported.
use crate::text::{commas_replaced, replace_commas};
use vstd::prelude::*;
use vstd::string::*;

verus! {

/// How one pyrometer run ended.
#[derive(Clone, Debug)]
pub enum ExitType {
    /// The analysis ran to its end.
    Success,
    /// The analysis was stopped because it took too long.
    PerformanceTimeout,
    /// Pyrometer reported an error, with its message.
    Error(String),
    /// A pyrometer thread panicked, with the reason.
    ThreadPanic(String),
    /// Nothing known was found: the text of standard output and of standard error.
    NonInterpreted(String, String),
}

/// The mathematical value of an [`ExitType`].
pub enum ExitTypeView {
    Success,
    PerformanceTimeout,
    Error(Seq<char>),
    ThreadPanic(Seq<char>),
    NonInterpreted(Seq<char>, Seq<char>),
}

impl View for ExitType {
    type V = ExitTypeView;

    open spec fn view(&self) -> ExitTypeView {
        match *self {
            ExitType::Success => ExitTypeView::Success,
            ExitType::PerformanceTimeout => ExitTypeView::PerformanceTimeout,
            ExitType::Error(message) => ExitTypeView::Error(message@),
            ExitType::ThreadPanic(reason) => ExitTypeView::ThreadPanic(reason@),
            ExitType::NonInterpreted(stdout, stderr) => ExitTypeView::NonInterpreted(
                stdout@,
                stderr@,
            ),
        }
    }
}

/// The mathematical value of an exit is of its kind and holds its texts.
pub proof fn view_keeps_kind_and_texts(exit: ExitType)
    ensures
        exit is Success <==> exit@ is Success,
        exit is PerformanceTimeout <==> exit@ is PerformanceTimeout,
        exit is Error <==> exit@ is Error,
        exit is ThreadPanic <==> exit@ is ThreadPanic,
        exit is NonInterpreted <==> exit@ is NonInterpreted,
        exit matches ExitType::Error(message) ==> exit@->Error_0 == message@,
        exit matches ExitType::ThreadPanic(reason) ==> exit@->ThreadPanic_0 == reason@,
        exit matches ExitType::NonInterpreted(stdout, stderr) ==> {
            &&& exit@->NonInterpreted_0 == stdout@
            &&& exit@->NonInterpreted_1 == stderr@
        },
{
}

impl ExitTypeView {
    /// The label of a way to end. A message stands in it with `:` for each `,`.
    pub open spec fn label(self) -> Seq<char> {
        match self {
            ExitTypeView::Success => "Success"@,
            ExitTypeView::PerformanceTimeout => "PerformanceTimeout"@,
            ExitTypeView::Error(message) => "Error: "@ + commas_replaced(message),
            ExitTypeView::ThreadPanic(reason) => "ThreadPanic: "@ + commas_replaced(reason),
            ExitTypeView::NonInterpreted(_, _) => "NonInterpreted Error"@,
        }
    }
}

impl ExitType {
    /// The label under which this way to end is written down and counted.
    pub fn to_string(&self) -> (label: String)
        ensures
            label@ == self@.label(),
    {
        match self {
            ExitType::Success => "Success".to_owned(),
            ExitType::PerformanceTimeout => "PerformanceTimeout".to_owned(),
            ExitType::Error(message) => {
                let replaced = replace_commas(message.as_str());
                "Error: ".to_owned().concat(replaced.as_str())
            },
            ExitType::ThreadPanic(reason) => {
                let replaced = replace_commas(reason.as_str());
                "ThreadPanic: ".to_owned().concat(replaced.as_str())
            },
            ExitType::NonInterpreted(_, _) => "NonInterpreted Error".to_owned(),
        }
    }
}

/// No label holds a comma, whatever a message says.
pub proof fn label_has_no_comma(exit: ExitTypeView)
    ensures
        !exit.label().contains(','),
{
    reveal_strlit("Success");
    reveal_strlit("PerformanceTimeout");
    reveal_strlit("Error: ");
    reveal_strlit("ThreadPanic: ");
    reveal_strlit("NonInterpreted Error");
}

/// A label names the way to end. Behind that stands the message, if there is
/// one, character for character but for `:` in place of each `,`.
pub proof fn label_names_kind_and_message(exit: ExitType)
    ensures
        ({
            let label = exit@.label();
            match exit {
                ExitType::Success => label == "Success"@,
                ExitType::PerformanceTimeout => label == "PerformanceTimeout"@,
                ExitType::Error(message) => {
                    &&& label.len() == 7 + message@.len()
                    &&& label.take(7) == "Error: "@
                    &&& forall|i: int|
                        0 <= i < message@.len() ==> label[7 + i] == (if #[trigger] message@[i]
                            == ',' {
                            ':'
                        } else {
                            message@[i]
                        })
                },
                ExitType::ThreadPanic(reason) => {
                    &&& label.len() == 13 + reason@.len()
                    &&& label.take(13) == "ThreadPanic: "@
                    &&& forall|i: int|
                        0 <= i < reason@.len() ==> label[13 + i] == (if #[trigger] reason@[i]
                            == ',' {
                            ':'
                        } else {
                            reason@[i]
                        })
                },
                ExitType::NonInterpreted(_, _) => label == "NonInterpreted Error"@,
            }
        }),
{
    reveal_strlit("Error: ");
    reveal_strlit("ThreadPanic: ");
    let label = exit@.label();
    match exit {
        ExitType::Error(_) => {
            assert(label.take(7) =~= "Error: "@);
        },
        ExitType::ThreadPanic(_) => {
            assert(label.take(13) =~= "ThreadPanic: "@);
        },
        _ => {},
    }
}

/// Two ways to end that are reported under one label are of the same kind.
pub proof fn labels_tell_kinds_apart(a: ExitTypeView, b: ExitTypeView)
    requires
        a.label() == b.label(),
    ensures
        a is Success <==> b is Success,
        a is PerformanceTimeout <==> b is PerformanceTimeout,
        a is Error <==> b is Error,
        a is ThreadPanic <==> b is ThreadPanic,
        a is NonInterpreted <==> b is NonInterpreted,
{
    label_initial(a);
    label_initial(b);
}

/// The first letter of a label.
proof fn label_initial(exit: ExitTypeView)
    ensures
        exit.label()[0] == (match exit {
            ExitTypeView::Success => 'S',
            ExitTypeView::PerformanceTimeout => 'P',
            ExitTypeView::Error(_) => 'E',
            ExitTypeView::ThreadPanic(_) => 'T',
            ExitTypeView::NonInterpreted(_, _) => 'N',
        }),
{
    reveal_strlit("Success");
    reveal_strlit("PerformanceTimeout");
    reveal_strlit("Error: ");
    reveal_strlit("ThreadPanic: ");
    reveal_strlit("NonInterpreted Error");
}

/// A run is reported under the label of success exactly when it succeeded.
pub proof fn success_label_means_success(exit: ExitTypeView)
    ensures
        exit.label() == "Success"@ <==> exit == ExitTypeView::Success,
{
    reveal_strlit("Success");
    reveal_strlit("PerformanceTimeout");
    reveal_strlit("Error: ");
    reveal_strlit("ThreadPanic: ");
    reveal_strlit("NonInterpreted Error");
    assert("Success"@[0] == 'S');
    match exit {
        ExitTypeView::Success => {},
        _ => {
            assert(exit.label()[0] != 'S');
        },
    }
}

} // verus!
