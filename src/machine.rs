use vstd::prelude::*;
use vstd::string::StringExecFns;
use crate::config::{AliasEntry, Config};
use crate::error::{NshError, NshErrorType};
use crate::escape::{decode, string};
use crate::parser::{Ast, Node, Value, spaced};
use crate::token::{Token, text_eq, tokenize, shell_lexed};

verus! {

/// A snapshot of the process environment: variable names and values.
pub type Environment = Vec<(String, String)>;

/// The value of variable `name`: the first entry with that name, or the empty
/// text where there is none.
pub open spec fn env_get(env: Seq<(String, String)>, name: Seq<char>) -> Seq<char>
    decreases env.len(),
{
    if env.len() == 0 {
        Seq::empty()
    } else if env[0].0@ == name {
        env[0].1@
    } else {
        env_get(env.drop_first(), name)
    }
}

/// A value resolved to text: a literal is escape-decoded, a variable is looked
/// up (empty where unset), and no value is the empty text.
pub open spec fn resolve(v: Value, env: Seq<(String, String)>) -> Seq<char> {
    match v {
        Value::Str(s) => decode(s@),
        Value::Env(n) => env_get(env, n@),
        Value::Nov => Seq::empty(),
    }
}

/// The line that lists one alias: its pattern, a colon and a space, and its
/// replacement tokens, each preceded by a space.
pub open spec fn alias_line(e: AliasEntry) -> Seq<char> {
    e.0.text@ + ": "@ + spaced(e.1@)
}

/// What running one instruction decides: the action handed out, the alias
/// table after it, the errors after it, and whether the line stops.
pub open spec fn instruction_effect(
    n: Node,
    a: Action,
    capture: bool,
    env: Seq<(String, String)>,
    table0: Seq<AliasEntry>,
    table1: Seq<AliasEntry>,
    errs0: Seq<NshError>,
    errs1: Seq<NshError>,
    halted: bool,
) -> bool {
    match n {
        Node::Exec { file, args } => {
            &&& a matches Action::Spawn { program, args: xs, capture: c }
                && program == file && c == capture && xs@.len() == args@.len()
                && forall|i: int| 0 <= i < xs@.len() ==> (#[trigger] xs@[i])@ == resolve(args@[i], env)
            &&& table1 == table0 && errs1 == errs0 && !halted
        },
        Node::Cd(v) => {
            &&& a matches Action::ChangeDir(d) && d@ == resolve(v, env)
            &&& table1 == table0 && errs1 == errs0 && !halted
        },
        Node::AliasList => {
            &&& a matches Action::Print(lines) && lines@.len() == table0.len()
                && forall|i: int| 0 <= i < lines@.len() ==> (#[trigger] lines@[i])@ == alias_line(table0[i])
            &&& table1 == table0 && errs1 == errs0 && !halted
        },
        Node::Alias(p, r) => {
            let ps = shell_lexed(resolve(p, env));
            let rs = shell_lexed(resolve(r, env));
            &&& a is Nothing
            &&& if ps is None || rs is None {
                &&& halted && table1 == table0
                &&& errs1.len() == errs0.len() + 1 && errs1.drop_last() == errs0
                &&& errs1.last() matches NshError::Lexical(m) && m@ == "failed to tokenize"@
            } else if ps->0.len() != 1 {
                &&& halted && table1 == table0
                &&& errs1.len() == errs0.len() + 1 && errs1.drop_last() == errs0
                &&& errs1.last() matches NshError::Alias(m) && m@ == "Alias can only accept 1 token as the match"@
            } else {
                &&& !halted && errs1 == errs0
                &&& table1.len() == table0.len() + 1 && table1.drop_last() == table0
                &&& table1.last().0 == ps->0[0] && table1.last().1@ == rs->0
            }
        },
        Node::SetEnv(name, v) => {
            &&& a matches Action::SetVar(k, x) && k == name && x@ == resolve(v, env)
            &&& table1 == table0 && errs1 == errs0 && !halted
        },
        _ => a is Nothing && table1 == table0 && errs1 == errs0 && !halted,
    }
}

/// What one step of a line decides, from the run before it to the run after
/// it: a stopped line is finished and stays as it is; a pending working
/// directory is recorded in `PWD` first; at the end of the instructions the
/// line is finished; otherwise the next instruction runs (see
/// `instruction_effect`).
pub open spec fn step_effect(
    run0: LineRun,
    run1: LineRun,
    a: Action,
    env: Seq<(String, String)>,
    table0: Seq<AliasEntry>,
    table1: Seq<AliasEntry>,
    errs0: Seq<NshError>,
    errs1: Seq<NshError>,
) -> bool {
    &&& run1.nodes == run0.nodes
    &&& run1.capture == run0.capture
    &&& run1.output == run0.output
    &&& run0.halted ==> a is Finished && run1 == run0 && table1 == table0 && errs1 == errs0
    &&& !run0.halted && run0.pwd is Some ==> (match a {
        Action::SetVar(k, x) => k@ == "PWD"@ && x == run0.pwd->0,
        _ => false,
    }) && run1.pwd is None && run1.next == run0.next && !run1.halted && table1 == table0
        && errs1 == errs0
    &&& !run0.halted && run0.pwd is None && run0.next >= run0.nodes@.len() ==> a is Finished
        && run1 == run0 && table1 == table0 && errs1 == errs0
    &&& !run0.halted && run0.pwd is None && run0.next < run0.nodes@.len() ==> run1.next == run0.next + 1
        && run1.pwd is None && instruction_effect(run0.nodes@[run0.next as int], a, run0.capture, env,
        table0, table1, errs0, errs1, run1.halted)
}

/// What taking in the outcome of an action does: captured output is added to
/// the line's output, a new working directory waits to be recorded, and a
/// failure is recorded and stops the line.
pub open spec fn complete_effect(
    run0: LineRun,
    run1: LineRun,
    event: Event,
    errs0: Seq<NshError>,
    errs1: Seq<NshError>,
) -> bool {
    &&& run1.nodes == run0.nodes
    &&& run1.next == run0.next
    &&& run1.capture == run0.capture
    &&& match event {
        Event::Done => run1 == run0 && errs1 == errs0,
        Event::Captured(s) => run1.output@ == run0.output@ + s@ && run1.halted == run0.halted
            && run1.pwd == run0.pwd && errs1 == errs0,
        Event::DirChanged(d) => run1.pwd == Some(d) && run1.output == run0.output
            && run1.halted == run0.halted && errs1 == errs0,
        Event::Failed(e) => run1.halted && run1.pwd is None && run1.output == run0.output
            && errs1 == errs0.push(e),
    }
}

/// Defining an alias whose pattern tokenizes to other than exactly one token
/// (while its replacement tokenizes) records one alias error, stops the line,
/// and leaves the alias table as it was.
pub proof fn lemma_alias_arity_error(
    p: Value,
    r: Value,
    a: Action,
    capture: bool,
    env: Seq<(String, String)>,
    table0: Seq<AliasEntry>,
    table1: Seq<AliasEntry>,
    errs0: Seq<NshError>,
    errs1: Seq<NshError>,
    halted: bool,
)
    requires
        instruction_effect(Node::Alias(p, r), a, capture, env, table0, table1, errs0, errs1, halted),
        shell_lexed(resolve(p, env)) is Some,
        shell_lexed(resolve(r, env)) is Some,
        shell_lexed(resolve(p, env))->0.len() != 1,
    ensures
        table1 == table0,
        table1.len() == table0.len(),
        halted,
        errs1.len() == errs0.len() + 1,
        errs1.drop_last() == errs0,
        errs1.last() is Alias,
{
}

/// Listing the aliases never records an error, never stops the line, and
/// never changes the alias table.
pub proof fn lemma_alias_list_changes_nothing(
    a: Action,
    capture: bool,
    env: Seq<(String, String)>,
    table0: Seq<AliasEntry>,
    table1: Seq<AliasEntry>,
    errs0: Seq<NshError>,
    errs1: Seq<NshError>,
    halted: bool,
)
    requires
        instruction_effect(Node::AliasList, a, capture, env, table0, table1, errs0, errs1, halted),
    ensures
        table1 == table0,
        errs1 == errs0,
        !halted,
        a is Print,
{
}

/// Once the outside work of an action fails, the failure is the one error
/// recorded, the output gathered so far is kept, no working directory is
/// recorded in `PWD`, and every later step finishes the line with no effect:
/// no instruction after it runs.
pub proof fn lemma_failure_ends_line(
    run0: LineRun,
    run1: LineRun,
    run2: LineRun,
    e: NshError,
    a: Action,
    env: Seq<(String, String)>,
    table1: Seq<AliasEntry>,
    table2: Seq<AliasEntry>,
    errs0: Seq<NshError>,
    errs1: Seq<NshError>,
    errs2: Seq<NshError>,
)
    requires
        complete_effect(run0, run1, Event::Failed(e), errs0, errs1),
        step_effect(run1, run2, a, env, table1, table2, errs1, errs2),
    ensures
        a is Finished,
        run2 == run1,
        run1.halted,
        run1.pwd is None,
        run2.output == run0.output,
        run2.nodes == run0.nodes,
        table2 == table1,
        errs2 == errs0.push(e),
{
}

/// Outside work that one instruction asks for.
pub enum Action {
    /// Run a program; with `capture`, wait for it and hand back its output.
    Spawn { program: String, args: Vec<String>, capture: bool },
    /// Change the working directory and hand back the new one.
    ChangeDir(String),
    /// Set an environment variable.
    SetVar(String, String),
    /// Print these lines.
    Print(Vec<String>),
    /// Nothing to do for this instruction.
    Nothing,
    /// The line is over.
    Finished,
}

/// How the outside work of an action went.
pub enum Event {
    /// It was done.
    Done,
    /// The program ran; this is what it wrote.
    Captured(String),
    /// The working directory changed; this is the new one.
    DirChanged(String),
    /// It failed.
    Failed(NshError),
}

/// The execution of one line: its instructions, the next one to run, the
/// output gathered so far, and whether a failure stopped it.
pub struct LineRun {
    pub nodes: Vec<Node>,
    pub next: usize,
    pub output: String,
    pub capture: bool,
    pub halted: bool,
    /// A working directory to be recorded in `PWD` before anything else.
    pub pwd: Option<String>,
}

/// The interpreter: it decides, instruction by instruction, what a line does,
/// and keeps the errors that execution records.
pub struct Machine {
    pub errors: NshErrorType,
}

impl Machine {
    pub fn new() -> (r: Machine)
        ensures
            r.errors@ == Seq::<NshError>::empty(),
    {
        Machine { errors: NshErrorType::new() }
    }

    /// Forgets the recorded errors.
    pub fn empty_errors(&mut self)
        ensures
            final(self).errors@ == Seq::<NshError>::empty(),
    {
        self.errors = NshErrorType::new();
    }

    pub fn errors(&self) -> (r: &NshErrorType)
        ensures
            r == &self.errors,
    {
        &self.errors
    }

    /// Looks a variable up in an environment snapshot.
    pub fn lookup(env: &Environment, name: &str) -> (r: String)
        ensures
            r@ == env_get(env@, name@),
    {
        let mut i: usize = 0;
        assert(env@.subrange(0, env@.len() as int) == env@);
        while i < env.len()
            invariant
                i <= env@.len(),
                env_get(env@, name@) == env_get(env@.subrange(i as int, env@.len() as int), name@),
            decreases env@.len() - i,
        {
            let ghost rest = env@.subrange(i as int, env@.len() as int);
            assert(rest[0] == env@[i as int]);
            if text_eq(env[i].0.as_str(), name) {
                return env[i].1.clone();
            }
            assert(rest.drop_first() == env@.subrange(i + 1, env@.len() as int));
            i = i + 1;
        }
        String::new()
    }

    /// Resolves a value to text (see `resolve`).
    pub fn value(&self, val: &Value, env: &Environment) -> (r: String)
        ensures
            r@ == resolve(*val, env@),
    {
        match val {
            Value::Str(s) => string(s.as_str()),
            Value::Env(var) => Machine::lookup(env, var.as_str()),
            Value::Nov => String::new(),
        }
    }

    /// Resolves every argument, in order.
    pub fn arg_values(&self, args: &Vec<Value>, env: &Environment) -> (r: Vec<String>)
        ensures
            r@.len() == args@.len(),
            forall|i: int| 0 <= i < args@.len() ==> (#[trigger] r@[i])@ == resolve(args@[i], env@),
    {
        let mut result: Vec<String> = Vec::new();
        let mut i: usize = 0;
        while i < args.len()
            invariant
                i <= args@.len(),
                result@.len() == i,
                forall|j: int| 0 <= j < i ==> (#[trigger] result@[j])@ == resolve(args@[j], env@),
            decreases args@.len() - i,
        {
            result.push(self.value(&args[i], env));
            i = i + 1;
        }
        result
    }

    /// What a line returns: its gathered output in capture mode, else nothing.
    pub fn ret_exec(&self, output_on: bool, output: String) -> (r: Option<String>)
        ensures
            output_on ==> r == Some(output),
            !output_on ==> r is None,
    {
        if output_on {
            Some(output)
        } else {
            None
        }
    }

    /// The lines that list every alias, in table order.
    pub fn print_alias(&self, aliases: &Vec<AliasEntry>) -> (r: Vec<String>)
        ensures
            r@.len() == aliases@.len(),
            forall|i: int| 0 <= i < aliases@.len() ==> (#[trigger] r@[i])@ == alias_line(aliases@[i]),
    {
        let mut lines: Vec<String> = Vec::new();
        let mut i: usize = 0;
        while i < aliases.len()
            invariant
                i <= aliases@.len(),
                lines@.len() == i,
                forall|j: int| 0 <= j < i ==> (#[trigger] lines@[j])@ == alias_line(aliases@[j]),
            decreases aliases@.len() - i,
        {
            let entry = &aliases[i];
            let line = entry.0.as_string().concat(": ").concat(Ast::tokens_to_string(&entry.1).as_str());
            lines.push(line);
            i = i + 1;
        }
        lines
    }

    /// Decides the next piece of work of a line. A stopped line is finished
    /// and stays as it is; a pending working directory is recorded in `PWD`
    /// first; otherwise the next instruction runs: builtins that need no
    /// outside work (defining an alias) are done here, and a failure among them
    /// is recorded and stops the line.
    pub fn step(&mut self, run: &mut LineRun, config: &mut Config, env: &Environment) -> (a: Action)
        ensures
            step_effect(*old(run), *final(run), a, env@, old(config).alias@, final(config).alias@,
                old(self).errors@, final(self).errors@),
    {
        if run.halted {
            return Action::Finished;
        }
        if run.pwd.is_some() {
            let dir = run.pwd.take().unwrap();
            return Action::SetVar(String::from_str("PWD"), dir);
        }
        if run.next >= run.nodes.len() {
            return Action::Finished;
        }
        let index = run.next;
        run.next = index + 1;
        match &run.nodes[index] {
            Node::Exec { file, args } => {
                Action::Spawn { program: file.clone(), args: self.arg_values(args, env), capture: run.capture }
            },
            Node::Cd(dir) => Action::ChangeDir(self.value(dir, env)),
            Node::AliasList => Action::Print(self.print_alias(&config.alias)),
            Node::Alias(pattern, replacement) => {
                let pattern_signature = tokenize(self.value(pattern, env).as_str());
                let replacement_signature = tokenize(self.value(replacement, env).as_str());
                let ghost e0 = self.errors@;
                let ghost t0 = config.alias@;
                match define_alias(config, pattern_signature, replacement_signature) {
                    Ok(()) => {
                        assert(config.alias@.drop_last() == t0);
                    },
                    Err(err) => {
                        self.errors.push(err);
                        assert(self.errors@.drop_last() == e0);
                        run.halted = true;
                    },
                }
                Action::Nothing
            },
            Node::SetEnv(name, value) => Action::SetVar(name.clone(), self.value(value, env)),
            _ => Action::Nothing,
        }
    }

    /// Takes in how the outside work of the last action went: captured output
    /// is added to the line's output, a new working directory waits to be
    /// recorded, and a failure is recorded and stops the line.
    pub fn complete(&mut self, run: &mut LineRun, event: Event)
        ensures
            complete_effect(*old(run), *final(run), event, old(self).errors@, final(self).errors@),
    {
        match event {
            Event::Done => {},
            Event::Captured(s) => run.output.append(s.as_str()),
            Event::DirChanged(d) => run.pwd = Some(d),
            Event::Failed(e) => {
                self.errors.push(e);
                run.halted = true;
                run.pwd = None;
            },
        }
    }

    /// Starts the execution of a line of instructions.
    pub fn exec(&self, ast: Vec<Node>, output_on: bool) -> (r: LineRun)
        ensures
            r.nodes == ast,
            r.next == 0,
            r.output@ == Seq::<char>::empty(),
            r.capture == output_on,
            !r.halted,
            r.pwd is None,
    {
        LineRun { nodes: ast, next: 0, output: String::new(), capture: output_on, halted: false, pwd: None }
    }
}

/// Adds an alias from the tokens of its pattern and of its replacement, as
/// the tokenizer gave them. Either failing to tokenize is a lexical error; a
/// pattern of other than exactly one token is an alias error. On an error the
/// table is left as it was.
pub fn define_alias(
    config: &mut Config,
    pattern: Result<Vec<Token>, String>,
    replacement: Result<Vec<Token>, String>,
) -> (r: Result<(), NshError>)
    ensures
        (pattern is Err || replacement is Err) ==> (match r {
            Err(NshError::Lexical(m)) => m@ == "failed to tokenize"@,
            _ => false,
        }),
        (pattern is Ok && replacement is Ok && pattern->Ok_0@.len() != 1) ==> (match r {
            Err(NshError::Alias(m)) => m@ == "Alias can only accept 1 token as the match"@,
            _ => false,
        }),
        (pattern is Ok && replacement is Ok && pattern->Ok_0@.len() == 1) ==> r is Ok
            && final(config).alias@ == old(config).alias@.push(
                (pattern->Ok_0@[0], replacement->Ok_0)),
        r is Err ==> final(config).alias@ == old(config).alias@,
{
    match (pattern, replacement) {
        (Ok(p), Ok(q)) => {
            if p.len() != 1 {
                return Err(NshError::Alias(String::from_str("Alias can only accept 1 token as the match")));
            }
            let first = p[0].duplicate();
            config.alias.push((first, q));
            Ok(())
        },
        _ => Err(NshError::Lexical(String::from_str("failed to tokenize"))),
    }
}

} // verus!
