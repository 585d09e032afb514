use vstd::prelude::*;
use crate::config::{Config, substitute};
use crate::error::{NshError, NshErrorType};
use crate::machine::{Action, Environment, Event, LineRun, Machine, complete_effect, step_effect};
use crate::parser::{Ast, all_errors, extends_with, node_of, statements};
use crate::token::{tokenize, shell_lexed};

verus! {

/// The shell: its error queue, its interpreter and its configuration.
pub struct Nsh {
    pub errors: NshErrorType,
    pub vm: Machine,
    pub config: Config,
}

impl Nsh {
    pub fn new() -> (r: Nsh)
        ensures
            r.errors@ == Seq::<NshError>::empty(),
            r.vm.errors@ == Seq::<NshError>::empty(),
            r.config.alias@.len() == 0,
    {
        Nsh { errors: NshErrorType::new(), vm: Machine::new(), config: Config::new() }
    }

    /// Tokenizes and parses a line of shell source and starts its execution.
    /// Where tokenizing fails, a lexical error is recorded and the line has no
    /// instructions; otherwise it has one instruction per statement, parsed
    /// after alias substitution, and the parse errors are recorded in order.
    pub fn exec_line(&mut self, buf: &str, output: bool) -> (r: LineRun)
        ensures
            r.next == 0,
            r.output@ == Seq::<char>::empty(),
            r.capture == output,
            !r.halted,
            r.pwd is None,
            final(self).config.alias@ == old(self).config.alias@,
            final(self).vm.errors@ == old(self).vm.errors@,
            shell_lexed(buf@) is None ==> r.nodes@.len() == 0
                && final(self).errors@.len() == old(self).errors@.len() + 1
                && final(self).errors@.drop_last() == old(self).errors@
                && final(self).errors@.last() is Lexical,
            shell_lexed(buf@) matches Some(ts) ==> {
                &&& r.nodes@.len() == statements(ts).len()
                &&& forall|i: int| 0 <= i < r.nodes@.len()
                    ==> node_of(substitute(statements(ts)[i], old(self).config.alias@), #[trigger] r.nodes@[i])
                &&& extends_with(old(self).errors@, final(self).errors@,
                    all_errors(statements(ts), old(self).config.alias@))
            },
    {
        match tokenize(buf) {
            Err(err) => {
                let ghost e0 = self.errors@;
                self.errors.push(NshError::Lexical(err));
                assert(self.errors@.drop_last() == e0);
                self.vm.exec(Vec::new(), output)
            },
            Ok(tokens) => {
                let mut parser = Ast::new(tokens);
                let ast = parser.parse(&self.config);
                let ghost e0 = self.errors@;
                self.errors.merge(&parser.errors);
                proof {
                    let msgs = all_errors(statements(parser.tokens@), self.config.alias@);
                    let n = parser.errors@;
                    assert(self.errors@.subrange(0, e0.len() as int) == e0);
                    assert forall|i: int| 0 <= i < msgs.len() implies (#[trigger] self.errors@[e0.len() + i]) is Parser
                        && crate::error::message_of(self.errors@[e0.len() + i]) == msgs[i] by {
                        assert(self.errors@[e0.len() + i] == n[0 + i]);
                    }
                }
                self.vm.exec(ast, output)
            },
        }
    }

    /// The next piece of work of a line (see `Machine::step`).
    pub fn step(&mut self, run: &mut LineRun, env: &Environment) -> (a: Action)
        ensures
            final(self).errors@ == old(self).errors@,
            step_effect(*old(run), *final(run), a, env@, old(self).config.alias@, final(self).config.alias@,
                old(self).vm.errors@, final(self).vm.errors@),
    {
        self.vm.step(run, &mut self.config, env)
    }

    /// Takes in how the last action went (see `Machine::complete`).
    pub fn complete(&mut self, run: &mut LineRun, event: Event)
        ensures
            final(self).errors@ == old(self).errors@,
            final(self).config.alias@ == old(self).config.alias@,
            complete_effect(*old(run), *final(run), event, old(self).vm.errors@, final(self).vm.errors@),
    {
        self.vm.complete(run, event)
    }

    /// What a finished line returns: its output in capture mode, else nothing.
    pub fn result(&self, run: LineRun) -> (r: Option<String>)
        ensures
            run.capture ==> r == Some(run.output),
            !run.capture ==> r is None,
    {
        self.vm.ret_exec(run.capture, run.output)
    }
}

} // verus!
