use vstd::prelude::*;
use crate::line::{FileDescriptor, Line, LineView, Message};
use crate::text::{glue, contains, occurs_in};

verus! {

/// A sink for result lines. What an implementation does with a line is its own
/// affair; one that is shared between threads has to keep its own order.
pub trait Logger {
    /// Hands one line to the sink.
    fn log(&mut self, line: Line);
}

/// A sink that keeps its lines in memory, oldest first.
#[derive(Debug)]
pub struct TestLogger {
    logs: Vec<Line>,
}

impl View for TestLogger {
    type V = Seq<LineView>;

    closed spec fn view(&self) -> Seq<LineView> {
        self.logs.deep_view()
    }
}

/// The lines of `lines` that go to `stream`, in order.
pub open spec fn written_to(lines: Seq<LineView>, stream: FileDescriptor) -> Seq<LineView> {
    lines.filter(|line: LineView| line.goes_to(stream))
}

/// What is printed for the lines `lines`: for each line of plain text, its text
/// after `print: `; nothing for a tree line.
pub open spec fn printed(lines: Seq<LineView>) -> Seq<Seq<char>> {
    lines.filter(|line: LineView| line.message is Standard).map_values(
        |line: LineView| "print: "@ + line.message.text(),
    )
}

/// Whether the text of one of `lines` holds `wanted`.
pub open spec fn some_line_holds(lines: Seq<LineView>, wanted: Seq<char>) -> bool {
    exists|k: int| 0 <= k < lines.len() && occurs_in((#[trigger] lines[k]).message.text(), wanted)
}

impl TestLogger {
    /// A sink that holds no line yet.
    pub fn new() -> (logger: TestLogger)
        ensures
            logger@ == Seq::<LineView>::empty(),
    {
        TestLogger { logs: Vec::new() }
    }

    /// What printing the sink would write, line by line: see [`printed`].
    pub fn print(&self) -> (rows: Vec<String>)
        ensures
            rows.deep_view() == printed(self@),
    {
        let mut rows: Vec<String> = Vec::new();
        let ghost plain = |line: LineView| line.message is Standard;
        let ghost row = |line: LineView| "print: "@ + line.message.text();
        let mut at: usize = 0;
        assert(rows.deep_view() =~= self@.take(0).filter(plain).map_values(row)) by {
            reveal(Seq::filter);
        }
        while at < self.logs.len()
            invariant
                at <= self.logs.len(),
                plain == |line: LineView| line.message is Standard,
                row == |line: LineView| "print: "@ + line.message.text(),
                rows.deep_view() == self@.take(at as int).filter(plain).map_values(row),
            decreases self.logs.len() - at,
        {
            let ghost seen = self@.take(at as int);
            proof {
                assert(self@.take(at + 1) =~= seen.push(self@[at as int]));
                seen.lemma_filter_push(self@[at as int], plain);
            }
            match &self.logs[at].message {
                Message::Standard(text) => {
                    rows.push(glue("print: ", text.as_str()));
                    assert(seen.filter(plain).push(self@[at as int]).map_values(row)
                        =~= seen.filter(plain).map_values(row).push(row(self@[at as int])));
                },
                Message::Tree(_) => {},
            }
            at += 1;
        }
        assert(self@.take(at as int) =~= self@);
        rows
    }

    /// Every line the sink holds, oldest first.
    pub fn get_logs(&self) -> (lines: Vec<&Line>)
        ensures
            lines.deep_view() == self@,
    {
        let mut lines: Vec<&Line> = Vec::new();
        let mut at: usize = 0;
        while at < self.logs.len()
            invariant
                at <= self.logs.len(),
                lines.deep_view() == self@.take(at as int),
            decreases self.logs.len() - at,
        {
            let ghost before = lines.deep_view();
            lines.push(&self.logs[at]);
            assert(self@.take(at + 1) =~= before.push(self@[at as int]));
            at += 1;
        }
        lines
    }

    /// The lines the sink holds for one stream, oldest first.
    pub fn get_logs_by_file_descriptor(&self, file_descriptor: FileDescriptor) -> (lines: Vec<
        &Line,
    >)
        ensures
            lines.deep_view() == written_to(self@, file_descriptor),
    {
        let mut lines: Vec<&Line> = Vec::new();
        let ghost wanted = |line: LineView| line.goes_to(file_descriptor);
        let mut at: usize = 0;
        assert(lines.deep_view() =~= self@.take(0).filter(wanted)) by {
            reveal(Seq::filter);
        }
        while at < self.logs.len()
            invariant
                at <= self.logs.len(),
                wanted == |line: LineView| line.goes_to(file_descriptor),
                lines.deep_view() == self@.take(at as int).filter(wanted),
            decreases self.logs.len() - at,
        {
            let ghost seen = self@.take(at as int);
            proof {
                assert(self@.take(at + 1) =~= seen.push(self@[at as int]));
                seen.lemma_filter_push(self@[at as int], wanted);
            }
            let for_stream = match self.logs[at].file_descriptor {
                Some(stream) => stream == file_descriptor,
                None => false,
            };
            if for_stream {
                lines.push(&self.logs[at]);
            }
            at += 1;
        }
        assert(self@.take(at as int) =~= self@);
        lines
    }

    /// Whether the text of one of `lines` holds `line_to_find`.
    pub fn get_lines_from_logs_where_logs_contains_provided_value(
        lines: Vec<&Line>,
        line_to_find: String,
    ) -> (found: bool)
        ensures
            found == some_line_holds(lines.deep_view(), line_to_find@),
    {
        let mut at: usize = 0;
        while at < lines.len()
            invariant
                at <= lines.len(),
                forall|k: int|
                    0 <= k < at ==> !occurs_in(
                        (#[trigger] lines.deep_view()[k]).message.text(),
                        line_to_find@,
                    ),
            decreases lines.len() - at,
        {
            let message = lines[at].message.get_contained_message();
            assert(lines.deep_view()[at as int].message.text() == message@);
            if contains(message.as_str(), line_to_find.as_str()) {
                return true;
            }
            at += 1;
        }
        false
    }
}

impl Logger for TestLogger {
    fn log(&mut self, line: Line)
        ensures
            final(self)@ == old(self)@.push(line@),
    {
        self.logs.push(line);
    }
}

} // verus!
