//! What sinks ask the host program to do. The crate itself touches no file and
//! no terminal: it stages these requests, in order, and the host carries them
//! out.
use vstd::prelude::*;

verus! {

/// One request to the host program.
#[derive(Debug, Clone, PartialEq, Eq)]
pub enum Output {
    /// Create the file, or empty it if it exists.
    CreateFile { filename: String },
    /// Append the bytes to the file, through its buffer.
    Append { filename: String, bytes: Vec<u8> },
    /// Write out what the file's buffer holds.
    Flush { filename: String },
    /// Print the line on standard output.
    PrintLine { line: String },
}

/// What an [`Output`] stands for.
pub enum OutputView {
    CreateFile { filename: Seq<char> },
    Append { filename: Seq<char>, bytes: Seq<u8> },
    Flush { filename: Seq<char> },
    PrintLine { line: Seq<char> },
}

impl View for Output {
    type V = OutputView;

    open spec fn view(&self) -> OutputView {
        match self {
            Output::CreateFile { filename } => OutputView::CreateFile { filename: filename@ },
            Output::Append { filename, bytes } => OutputView::Append {
                filename: filename@,
                bytes: bytes@,
            },
            Output::Flush { filename } => OutputView::Flush { filename: filename@ },
            Output::PrintLine { line } => OutputView::PrintLine { line: line@ },
        }
    }
}

/// What a list of requests stands for.
pub open spec fn outputs_view(outputs: Seq<Output>) -> Seq<OutputView> {
    outputs.map_values(|output: Output| output@)
}

/// The bytes that a list of requests appends to the file `filename`, in order.
pub open spec fn appended_bytes(outputs: Seq<OutputView>, filename: Seq<char>) -> Seq<u8>
    decreases outputs.len(),
{
    if outputs.len() == 0 {
        Seq::empty()
    } else {
        let before = appended_bytes(outputs.drop_last(), filename);
        match outputs.last() {
            OutputView::Append { filename: target, bytes } if target == filename => before + bytes,
            _ => before,
        }
    }
}

/// How many of the requests flush the file `filename`.
pub open spec fn flush_count(outputs: Seq<OutputView>, filename: Seq<char>) -> nat
    decreases outputs.len(),
{
    if outputs.len() == 0 {
        0
    } else {
        let before = flush_count(outputs.drop_last(), filename);
        match outputs.last() {
            OutputView::Flush { filename: target } if target == filename => before + 1,
            _ => before,
        }
    }
}

/// What one more request adds to the bytes appended to `filename`.
pub proof fn lemma_appended_bytes_push(
    outputs: Seq<OutputView>,
    output: OutputView,
    filename: Seq<char>,
)
    ensures
        appended_bytes(outputs.push(output), filename) == appended_bytes(outputs, filename) + (
        match output {
            OutputView::Append { filename: target, bytes } if target == filename => bytes,
            _ => Seq::empty(),
        }),
{
    assert(outputs.push(output).drop_last() =~= outputs);
    assert(appended_bytes(outputs, filename) + Seq::<u8>::empty() =~= appended_bytes(
        outputs,
        filename,
    ));
}

/// What one more request adds to the number of flushes of `filename`.
pub proof fn lemma_flush_count_push(
    outputs: Seq<OutputView>,
    output: OutputView,
    filename: Seq<char>,
)
    ensures
        flush_count(outputs.push(output), filename) == flush_count(outputs, filename) + (
        match output {
            OutputView::Flush { filename: target } if target == filename => 1nat,
            _ => 0nat,
        }),
{
    assert(outputs.push(output).drop_last() =~= outputs);
}

} // verus!
