pub mod dict;
pub mod value;
pub mod symbol;
pub mod instruction;
pub mod exec;
pub mod meaning;
pub mod compile;
pub mod shape;
pub mod laws;
pub mod alike;

use vstd::prelude::*;

use crate::ast::ExprTop;
use crate::types::node::Node;
use compile::{blocks_agree, compile_nodes, lemma_blocks_agree};
use instruction::{block_from, Block, Error, Table};
use meaning::{agree, compilable_top, eval_top};
use exec::Exec;
use shape::nodes_compiled;
use symbol::SymbolTable;
use value::{undefined, Value};

verus! {

/// Compiles a program into a block of instructions in the same place: each
/// expression becomes the instruction that `shape::compiled` describes.  Run
/// on any variables, the block gives what evaluating the program gives, and
/// fails where it fails.
pub fn compile(input: Node<ExprTop>) -> (r: Result<Node<Block>, Node<Error>>)
    requires
        compilable_top(*input.data),
    ensures
        r matches Ok(b) && b.span == input.span && forall|m: Table|
            #[trigger] agree(block_from(b.data.0@, m, undefined()), eval_top(*input.data, m)),
        r matches Ok(b) ==> blocks_agree(b.data.0@, input.data.0@) && forall|k: int|
            0 <= k < b.data.0@.len() ==> (#[trigger] b.data.0@[k]).span == input.data.0@[k].span,
        r matches Ok(b) ==> nodes_compiled(b.data.0@, input.data.0@),
{
    let cs = compile_nodes(&input.data.0);
    let ghost g = cs@;
    let b = Node::new(input.span, Block(cs));
    proof {
        assert forall|m: Table| #[trigger] agree(block_from(b.data.0@, m, undefined()), eval_top(*input.data, m)) by {
            lemma_blocks_agree(g, input.data.0@, m, undefined());
        }
    }
    Ok(b)
}

/// Compiles a program and runs it on no variables: its value.  It fails
/// exactly where evaluating the program fails, and otherwise gives the value
/// that evaluation gives.
pub fn run(input: Node<ExprTop>) -> (r: Result<Value, Error>)
    requires
        compilable_top(*input.data),
    ensures
        eval_top(*input.data, Map::empty()) is Ok <==> r is Ok,
        r matches Ok(v) ==> eval_top(*input.data, Map::empty()) matches Ok((_, w)) && v@ == w,
{
    let ghost p = *input.data;
    let program = match compile(input) {
        Ok(b) => b,
        Err(e) => {
            return Err(Error::Node(e));
        },
    };
    let t = SymbolTable::new();
    proof {
        let m = Map::<Seq<char>, value::ValueV>::empty();
        assert(t.view() == m);
        assert(agree(block_from(program.data.0@, m, undefined()), eval_top(p, m)));
    }
    match program.exec(t) {
        Ok((_, val)) => Ok(val),
        Err(e) => Err(Error::Node(e)),
    }
}

} // verus!
