use vstd::prelude::*;
use vstd::string::StringExecFns;

verus! {

/// An error record of the shell, by kind, with its message.
#[derive(Clone, Debug)]
pub enum NshError {
    ReadStdin(String),
    Lexical(String),
    Exec(String),
    ExecWait(String),
    Config(String),
    Prompt(String),
    Parser(String),
    History(String),
    Utf8(String),
    Alias(String),
}

/// The text that introduces an error of each kind when it is reported.
pub open spec fn report_prefix(e: NshError) -> Seq<char> {
    match e {
        NshError::ReadStdin(_) => "[ERROR]: Failed to read from `stdin` -> `"@,
        NshError::Lexical(_) => "[ERROR]: Lexing with `lib_lexin` failed -> `"@,
        NshError::Exec(_) => "[ERROR]: Failed to execute command -> `"@,
        NshError::ExecWait(_) => "[ERROR]: Failed to wait for child process -> `"@,
        NshError::Config(_) => "[ERROR]: Failed to load config -> `"@,
        NshError::Prompt(_) => "[ERROR]: Failed to output prompt -> `"@,
        NshError::Parser(_) => "[ERROR]: Failed to parse -> `"@,
        NshError::History(_) => "[ERROR]: Failed to load history -> `"@,
        NshError::Utf8(_) => "[ERROR]: Failed to parse utf8 -> `"@,
        NshError::Alias(_) => "[ERROR]: Alias failed with message -> `"@,
    }
}

/// The message that an error carries.
pub open spec fn message_of(e: NshError) -> Seq<char> {
    match e {
        NshError::ReadStdin(m) => m@,
        NshError::Lexical(m) => m@,
        NshError::Exec(m) => m@,
        NshError::ExecWait(m) => m@,
        NshError::Config(m) => m@,
        NshError::Prompt(m) => m@,
        NshError::Parser(m) => m@,
        NshError::History(m) => m@,
        NshError::Utf8(m) => m@,
        NshError::Alias(m) => m@,
    }
}

/// The line that reports an error.
pub open spec fn report_line(e: NshError) -> Seq<char> {
    report_prefix(e) + message_of(e) + "`"@
}

impl NshError {
    /// A copy of the error.
    pub fn duplicate(&self) -> (r: NshError)
        ensures
            r == *self,
    {
        match self {
            NshError::ReadStdin(m) => NshError::ReadStdin(m.clone()),
            NshError::Lexical(m) => NshError::Lexical(m.clone()),
            NshError::Exec(m) => NshError::Exec(m.clone()),
            NshError::ExecWait(m) => NshError::ExecWait(m.clone()),
            NshError::Config(m) => NshError::Config(m.clone()),
            NshError::Prompt(m) => NshError::Prompt(m.clone()),
            NshError::Parser(m) => NshError::Parser(m.clone()),
            NshError::History(m) => NshError::History(m.clone()),
            NshError::Utf8(m) => NshError::Utf8(m.clone()),
            NshError::Alias(m) => NshError::Alias(m.clone()),
        }
    }

    /// The line that reports this error.
    pub fn report(&self) -> (r: String)
        ensures
            r@ == report_line(*self),
    {
        let (prefix, message) = match self {
            NshError::ReadStdin(m) => ("[ERROR]: Failed to read from `stdin` -> `", m),
            NshError::Lexical(m) => ("[ERROR]: Lexing with `lib_lexin` failed -> `", m),
            NshError::Exec(m) => ("[ERROR]: Failed to execute command -> `", m),
            NshError::ExecWait(m) => ("[ERROR]: Failed to wait for child process -> `", m),
            NshError::Config(m) => ("[ERROR]: Failed to load config -> `", m),
            NshError::Prompt(m) => ("[ERROR]: Failed to output prompt -> `", m),
            NshError::Parser(m) => ("[ERROR]: Failed to parse -> `", m),
            NshError::History(m) => ("[ERROR]: Failed to load history -> `", m),
            NshError::Utf8(m) => ("[ERROR]: Failed to parse utf8 -> `", m),
            NshError::Alias(m) => ("[ERROR]: Alias failed with message -> `", m),
        };
        String::from_str(prefix).concat(message.as_str()).concat("`")
    }
}

/// A failure of the interactive line editor, with its message.
#[derive(Debug)]
pub enum ReadLineError {
    Flush(String),
    Clear(String),
    Read(String),
    Cursor(String),
    Completion(String),
}

impl ReadLineError {
    /// The failure's message.
    pub fn to_string(&self) -> (r: String)
        ensures
            r@ == match self {
                ReadLineError::Flush(m) => m@,
                ReadLineError::Clear(m) => m@,
                ReadLineError::Read(m) => m@,
                ReadLineError::Cursor(m) => m@,
                ReadLineError::Completion(m) => m@,
            },
    {
        match self {
            ReadLineError::Flush(message) => message.clone(),
            ReadLineError::Clear(message) => message.clone(),
            ReadLineError::Read(message) => message.clone(),
            ReadLineError::Cursor(message) => message.clone(),
            ReadLineError::Completion(message) => message.clone(),
        }
    }
}

/// The queue of error records of one input cycle, in the order they came.
pub struct NshErrorType {
    errors: Vec<NshError>,
}

impl View for NshErrorType {
    type V = Seq<NshError>;

    closed spec fn view(&self) -> Seq<NshError> {
        self.errors@
    }
}

impl Default for NshErrorType {
    fn default() -> (r: NshErrorType)
        ensures
            r@ == Seq::<NshError>::empty(),
    {
        NshErrorType::new()
    }
}

impl NshErrorType {
    /// An empty queue.
    pub fn new() -> (r: NshErrorType)
        ensures
            r@ == Seq::<NshError>::empty(),
    {
        NshErrorType { errors: Vec::new() }
    }

    /// Records one error at the end of the queue.
    pub fn push(&mut self, error: NshError)
        ensures
            final(self)@ == old(self)@.push(error),
    {
        self.errors.push(error);
    }

    /// The number of recorded errors.
    pub fn len(&self) -> (r: usize)
        ensures
            r == self@.len(),
    {
        self.errors.len()
    }

    /// The recorded error at `index`.
    pub fn get(&self, index: usize) -> (r: &NshError)
        requires
            index < self@.len(),
        ensures
            *r == self@[index as int],
    {
        &self.errors[index]
    }

    /// Drains the queue: returns the report line of each recorded error, in
    /// order, and leaves the queue empty.
    pub fn handle(&mut self) -> (lines: Vec<String>)
        ensures
            final(self)@ == Seq::<NshError>::empty(),
            lines@.len() == old(self)@.len(),
            forall|i: int| 0 <= i < lines@.len() ==> lines@[i]@ == report_line(#[trigger] old(self)@[i]),
    {
        let mut lines: Vec<String> = Vec::new();
        let mut i: usize = 0;
        while i < self.errors.len()
            invariant
                self@ == old(self)@,
                i <= self@.len(),
                lines@.len() == i,
                forall|j: int| 0 <= j < i ==> lines@[j]@ == report_line(#[trigger] self@[j]),
            decreases self@.len() - i,
        {
            lines.push(self.errors[i].report());
            i = i + 1;
        }
        self.errors = Vec::new();
        lines
    }

    /// Records an error and drains the queue at once (see `handle`).
    pub fn handle_err(&mut self, err: NshError) -> (lines: Vec<String>)
        ensures
            final(self)@ == Seq::<NshError>::empty(),
            lines@.len() == old(self)@.len() + 1,
            forall|i: int| 0 <= i < lines@.len() ==> lines@[i]@ == report_line(#[trigger] old(self)@.push(err)[i]),
    {
        self.push(err);
        self.handle()
    }

    /// Appends a copy of every error of `error`, in order.
    pub fn merge(&mut self, error: &NshErrorType)
        ensures
            final(self)@ == old(self)@ + error@,
    {
        let mut i: usize = 0;
        while i < error.errors.len()
            invariant
                i <= error@.len(),
                self@ == old(self)@ + error@.subrange(0, i as int),
            decreases error@.len() - i,
        {
            let e = error.errors[i].duplicate();
            self.errors.push(e);
            i = i + 1;
            assert(error@.subrange(0, i as int) == error@.subrange(0, i - 1).push(e));
        }
        assert(error@.subrange(0, error@.len() as int) == error@);
    }
}

} // verus!
