use vstd::prelude::*;
use vstd::string::StrSliceExecFns;

use crate::ast::ExprTop;
use crate::hir::compile;
use crate::hir::exec::Exec;
use crate::hir::instruction::{wrap, Error, Instruction, Table};
use crate::hir::shape::nodes_compiled;
use crate::hir::meaning::{compilable_top, eval_top, is_compilable};
use crate::hir::symbol::SymbolTable;
use crate::hir::value::{undefined, Value};
use crate::hir::instruction::block_from;
use crate::types::node::Node;

verus! {

/// What the interactive shell prints.
#[derive(Clone, Copy, Debug, PartialEq, Eq, Hash, Structural)]
pub enum Print {
    Debug,
    Ast,
    Loopback,
    Output,
    Error,
}

/// The settings of the interactive shell.
#[derive(Debug)]
pub struct State {
    pub print: Vec<Print>,
}

impl State {
    /// The settings that print the output and errors, and whatever else is
    /// asked for.
    pub fn with(asked: Vec<Print>) -> (r: State)
        ensures
            forall|p: Print| #[trigger] r.print@.contains(p) <==> (p == Print::Output || p == Print::Error
                || asked@.contains(p)),
    {
        let mut print: Vec<Print> = Vec::new();
        print.push(Print::Output);
        print.push(Print::Error);
        assert(print@[0] == Print::Output && print@[1] == Print::Error);
        let mut k: usize = 0;
        while k < asked.len()
            invariant
                k <= asked@.len(),
                forall|q: Print|
                    #[trigger] print@.contains(q) <==> (q == Print::Output || q == Print::Error || exists|
                        j: int,
                    | 0 <= j < k && asked@[j] == q),
            decreases asked@.len() - k,
        {
            let p = asked[k];
            let ghost before = print@;
            print.push(p);
            proof {
                assert forall|q: Print|
                    #[trigger] print@.contains(q) <==> (q == Print::Output || q == Print::Error || exists|
                        j: int,
                    | 0 <= j < k + 1 && asked@[j] == q) by {
                    if print@.contains(q) {
                        let j = choose|j: int| 0 <= j < print@.len() && #[trigger] print@[j] == q;
                        if j < before.len() {
                            assert(before[j] == q);
                            assert(before.contains(q));
                        } else {
                            assert(asked@[k as int] == q);
                        }
                    }
                    if q == p {
                        assert(print@[before.len() as int] == q);
                    }
                    if exists|j: int| 0 <= j < k + 1 && asked@[j] == q {
                        let j = choose|j: int| 0 <= j < k + 1 && #[trigger] asked@[j] == q;
                        if j == k {
                            assert(print@[before.len() as int] == q);
                        } else {
                            assert(before.contains(q));
                            let i = choose|i: int| 0 <= i < before.len() && #[trigger] before[i] == q;
                            assert(print@[i] == q);
                        }
                    }
                    if q == Print::Output || q == Print::Error {
                        assert(before.contains(q));
                        let i = choose|i: int| 0 <= i < before.len() && #[trigger] before[i] == q;
                        assert(print@[i] == q);
                    }
                }
            }
            k = k + 1;
        }
        State { print }
    }

    /// Whether the shell prints `p`.
    pub fn shows(&self, p: Print) -> (r: bool)
        ensures
            r == self.print@.contains(p),
    {
        let mut k: usize = 0;
        while k < self.print.len()
            invariant
                k <= self.print@.len(),
                forall|j: int| 0 <= j < k ==> self.print@[j] != p,
            decreases self.print@.len() - k,
        {
            if self.print[k] == p {
                return true;
            }
            k = k + 1;
        }
        false
    }
}


/// The word that ends the shell.
pub open spec fn exit_word() -> Seq<char> {
    seq!['e', 'x', 'i', 't']
}

/// Whether an input line asks the shell to end: it is exactly `exit`.
pub fn is_exit(line: &str) -> (r: bool)
    ensures
        r <==> line@ == exit_word(),
{
    if line.unicode_len() != 4 {
        return false;
    }
    let ok = line.get_char(0) == 'e' && line.get_char(1) == 'x' && line.get_char(2) == 'i'
        && line.get_char(3) == 't';
    proof {
        if ok {
            assert(line@ =~= exit_word());
        }
        if line@ == exit_word() {
            assert(line@[0] == 'e' && line@[1] == 'x' && line@[2] == 'i' && line@[3] == 't');
        }
    }
    ok
}

/// What running one parsed line of the shell comes to.
#[derive(Debug)]
pub enum Step {
    /// The program uses what the compiler does not handle yet.
    Unsupported,
    /// Compiling the program failed.
    CompileError(Node<Error>),
    /// Running the program failed.
    RunError(Node<Error>),
    /// The program's value.
    Value(Value),
}

/// Runs a parsed line of the shell on the variables `table`: the variables
/// afterwards and what came of it.  The variables change only when the
/// program runs to its end; then they and the value are what evaluating the
/// program gives.
pub fn evaluate(table: SymbolTable, tree: Node<ExprTop>) -> (r: (SymbolTable, Step))
    ensures
        !compilable_top(*tree.data) ==> r.1 is Unsupported && r.0.view() == table.view(),
        compilable_top(*tree.data) ==> match eval_top(*tree.data, table.view()) {
            Ok((m, v)) => (r.1 matches Step::Value(w) && w@ == v) && r.0.view() == m,
            Err(_) => r.1 is RunError && r.0.view() == table.view(),
        },
        r.0.view() == line_after(table.view(), Some(*tree.data)),
        r.1 matches Step::RunError(e) ==> exists|b: Seq<Node<Instruction>>|
            nodes_compiled(b, (*tree.data).0@) && (#[trigger] block_from(b, table.view(), undefined()) matches Err(x)
                && e == wrap(tree.span, x)),
{
    if !is_compilable(&tree.data) {
        return (table, Step::Unsupported);
    }
    let ghost p = *tree.data;
    let ghost m = table.view();
    match compile(tree) {
        Ok(b) => {
            proof {
                assert(crate::hir::meaning::agree(block_from(b.data.0@, m, undefined()), eval_top(p, m)));
            }
            let before = table.clone();
            let ghost bs = b.data.0@;
            match b.exec(table) {
                Ok((t, v)) => (t, Step::Value(v)),
                Err(e) => {
                    assert(nodes_compiled(bs, p.0@));
                    assert(block_from(bs, m, undefined()) matches Err(x) && e == wrap(b.span, x));
                    (before, Step::RunError(e))
                },
            }
        },
        Err(e) => (table, Step::CompileError(e)),
    }
}


/// The variables after one line of the shell, run on the variables `m`: a
/// line that did not parse or could not be read (`None`), that the compiler
/// does not handle, or whose evaluation fails leaves them as they were; one
/// that runs to its end leaves what evaluating it gives.
pub open spec fn line_after(m: Table, line: Option<ExprTop>) -> Table {
    match line {
        Some(p) => if compilable_top(p) {
            match eval_top(p, m) {
                Ok((m2, _)) => m2,
                Err(_) => m,
            }
        } else {
            m
        },
        None => m,
    }
}

/// Whether a line fails on the variables `m`: it did not parse, the compiler
/// does not handle it, or evaluating it fails.
pub open spec fn line_fails(m: Table, line: Option<ExprTop>) -> bool {
    match line {
        Some(p) => !compilable_top(p) || eval_top(p, m) is Err,
        None => true,
    }
}

/// The variables after the lines `ls`, run one after another from `m`.
pub open spec fn session_after(m: Table, ls: Seq<Option<ExprTop>>) -> Table
    decreases ls.len(),
{
    if ls.len() == 0 {
        m
    } else {
        line_after(session_after(m, ls.drop_last()), ls.last())
    }
}

/// Running the lines `a` and then the lines `b` is running `a + b`.
pub proof fn law_session_concat(m: Table, a: Seq<Option<ExprTop>>, b: Seq<Option<ExprTop>>)
    ensures
        session_after(m, a + b) == session_after(session_after(m, a), b),
    decreases b.len(),
{
    if b.len() == 0 {
        assert(a + b =~= a);
    } else {
        law_session_concat(m, a, b.drop_last());
        assert((a + b).drop_last() =~= a + b.drop_last());
    }
}

/// A failing line changes no variable: the lines after it see the variables
/// that the lines before it left, as if it had not been there.
pub proof fn law_failing_line_kept_out(m: Table, ls: Seq<Option<ExprTop>>, k: int)
    requires
        0 <= k < ls.len(),
        line_fails(session_after(m, ls.take(k)), ls[k]),
    ensures
        session_after(m, ls.take(k + 1)) == session_after(m, ls.take(k)),
        session_after(m, ls) == session_after(m, ls.take(k) + ls.skip(k + 1)),
{
    let before = ls.take(k);
    let rest = ls.skip(k + 1);
    assert(ls.take(k + 1).drop_last() =~= before);
    assert(ls.take(k + 1).last() == ls[k]);
    assert(ls =~= ls.take(k + 1) + rest);
    law_session_concat(m, ls.take(k + 1), rest);
    law_session_concat(m, before, rest);
}

} // verus!
