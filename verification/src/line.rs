use vstd::prelude::*;

verus! {

/// The stream a line is written to.
#[derive(Clone, Copy, Debug, PartialEq, Eq, Structural)]
pub enum FileDescriptor {
    StdIn,
    StdOut,
    StdErr,
}

impl FileDescriptor {
    /// The number the operating system knows the stream by.
    pub open spec fn number_spec(self) -> int {
        match self {
            FileDescriptor::StdIn => 0,
            FileDescriptor::StdOut => 1,
            FileDescriptor::StdErr => 2,
        }
    }

    /// The number the operating system knows the stream by.
    pub fn number(self) -> (n: i32)
        ensures
            n == self.number_spec(),
    {
        match self {
            FileDescriptor::StdIn => 0,
            FileDescriptor::StdOut => 1,
            FileDescriptor::StdErr => 2,
        }
    }
}

/// The text of a line, tagged with how it is to be rendered.
#[derive(Debug, PartialEq)]
pub enum Message {
    Standard(String),
    Tree(String),
}

/// What a [`Message`] stands for: its text as a sequence of characters.
pub enum MessageView {
    Standard(Seq<char>),
    Tree(Seq<char>),
}

impl MessageView {
    /// The text carried by the message, whatever its rendering.
    pub open spec fn text(self) -> Seq<char> {
        match self {
            MessageView::Standard(s) => s,
            MessageView::Tree(s) => s,
        }
    }
}

impl View for Message {
    type V = MessageView;

    open spec fn view(&self) -> MessageView {
        match *self {
            Message::Standard(s) => MessageView::Standard(s@),
            Message::Tree(s) => MessageView::Tree(s@),
        }
    }
}

impl Clone for Message {
    fn clone(&self) -> (copy: Message)
        ensures
            copy == *self,
    {
        match self {
            Message::Standard(s) => Message::Standard(s.clone()),
            Message::Tree(s) => Message::Tree(s.clone()),
        }
    }
}

impl Message {
    /// The text carried by the message, whatever its rendering.
    pub fn get_contained_message(&self) -> (s: &String)
        ensures
            s@ == self@.text(),
    {
        match self {
            Message::Standard(x) => x,
            Message::Tree(x) => x,
        }
    }
}

/// One result line: a message and the stream it goes to.
#[derive(Debug, PartialEq)]
pub struct Line {
    pub message: Message,
    pub file_descriptor: Option<FileDescriptor>,
}

/// What a [`Line`] stands for.
pub struct LineView {
    pub message: MessageView,
    pub file_descriptor: Option<FileDescriptor>,
}

impl LineView {
    /// A line of plain text for standard output.
    pub open spec fn out(text: Seq<char>) -> LineView {
        LineView {
            message: MessageView::Standard(text),
            file_descriptor: Some(FileDescriptor::StdOut),
        }
    }

    /// A line of plain text for standard error.
    pub open spec fn err(text: Seq<char>) -> LineView {
        LineView {
            message: MessageView::Standard(text),
            file_descriptor: Some(FileDescriptor::StdErr),
        }
    }

    /// Whether the line goes to `stream`.
    pub open spec fn goes_to(self, stream: FileDescriptor) -> bool {
        self.file_descriptor == Some(stream)
    }
}

impl View for Line {
    type V = LineView;

    open spec fn view(&self) -> LineView {
        LineView { message: self.message@, file_descriptor: self.file_descriptor }
    }
}

impl DeepView for Line {
    type V = LineView;

    open spec fn deep_view(&self) -> LineView {
        self@
    }
}

impl Clone for Line {
    fn clone(&self) -> (copy: Line)
        ensures
            copy == *self,
    {
        Line { message: self.message.clone(), file_descriptor: self.file_descriptor }
    }
}

impl Line {
    /// A line for standard output.
    pub fn new(message: Message) -> (line: Line)
        ensures
            line.message == message,
            line.file_descriptor == Some(FileDescriptor::StdOut),
    {
        Line { message, file_descriptor: Some(FileDescriptor::StdOut) }
    }

    /// A line for the given stream.
    pub fn new_with_fd(message: Message, file_descriptor: FileDescriptor) -> (line: Line)
        ensures
            line.message == message,
            line.file_descriptor == Some(file_descriptor),
    {
        Line { message, file_descriptor: Some(file_descriptor) }
    }
}

} // verus!
