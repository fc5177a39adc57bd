use vstd::prelude::*;

use super::{
    Render,
    frags, int_chars, int_text, join_parts, lemma_join_step, nat_chars, nat_text, put, put_float,
    put_string, text, Frag, FragV,
};
use crate::ast::{
    Atom, Branch, CompIter, DictItem, DictItemComp, Expr, ExprEnclosure, KeyDatum, ListItem, Loop,
    LoopKind, Match, MatchArm, Op, OpArith, OpEqs, OpRange, Primary, Range, SpreadItem, Stmt, Target,
    TargetDictItem, TargetExpr, TargetListItem, Args, ExprTop,
};
use crate::ast::space_chars;
use crate::lexer::token::{NumberKind, Token};
use crate::types::node::Node;

verus! {

/// How a comparison operator prints.
pub open spec fn eqs_chars(o: OpEqs) -> Seq<char> {
    match o {
        OpEqs::EQ => "=="@,
        OpEqs::NE => "!="@,
        OpEqs::LT => "<"@,
        OpEqs::LE => "<="@,
        OpEqs::GT => ">"@,
        OpEqs::GE => ">="@,
    }
}

/// How an arithmetic operator prints.
pub open spec fn arith_chars(o: OpArith) -> Seq<char> {
    match o {
        OpArith::ADD => "+"@,
        OpArith::SUB => "-"@,
        OpArith::MUL => "*"@,
        OpArith::DIV => "/"@,
        OpArith::IDIV => "/%"@,
        OpArith::MOD => "%"@,
        OpArith::POW => "^"@,
    }
}

/// How a comparison operator prints.
pub open spec fn show_eqs(o: OpEqs) -> Seq<FragV> {
    text(eqs_chars(o))
}

/// How an arithmetic operator prints.
pub open spec fn show_arith(o: OpArith) -> Seq<FragV> {
    text(arith_chars(o))
}

/// The space around an arithmetic operator.
pub open spec fn show_space(o: OpArith) -> Seq<FragV> {
    text(space_chars(o))
}

/// How a range operator prints.
pub open spec fn show_range_op(o: OpRange) -> Seq<FragV> {
    text(
        match o {
            OpRange::RANGE => ".."@,
            OpRange::RANGEI => "..="@,
        },
    )
}

/// Renders a range operator.
pub fn render_range_op(o: &OpRange, out: &mut Vec<Frag>)
    ensures
        frags(final(out)@) == frags(old(out)@) + show_range_op(*o),
{
    match o {
        OpRange::RANGE => put(out, ".."),
        OpRange::RANGEI => put(out, "..="),
    }
}

/// Renders a comparison operator.
pub fn render_eqs(o: &OpEqs, out: &mut Vec<Frag>)
    ensures
        frags(final(out)@) == frags(old(out)@) + show_eqs(*o),
{
    match o {
        OpEqs::EQ => put(out, "=="),
        OpEqs::NE => put(out, "!="),
        OpEqs::LT => put(out, "<"),
        OpEqs::LE => put(out, "<="),
        OpEqs::GT => put(out, ">"),
        OpEqs::GE => put(out, ">="),
    }
}

/// Renders an arithmetic operator.
pub fn render_arith(o: &OpArith, out: &mut Vec<Frag>)
    ensures
        frags(final(out)@) == frags(old(out)@) + show_arith(*o),
{
    match o {
        OpArith::ADD => put(out, "+"),
        OpArith::SUB => put(out, "-"),
        OpArith::MUL => put(out, "*"),
        OpArith::DIV => put(out, "/"),
        OpArith::IDIV => put(out, "/%"),
        OpArith::MOD => put(out, "%"),
        OpArith::POW => put(out, "^"),
    }
}

/// Renders the space around an arithmetic operator.
pub fn render_space(o: &OpArith, out: &mut Vec<Frag>)
    ensures
        frags(final(out)@) == frags(old(out)@) + show_space(*o),
{
    put(out, o.space());
}

/// How an atom prints.
pub open spec fn show_atom(x: Atom) -> Seq<FragV>
    decreases x,
{
    match x {
        Atom::Id(v) => text(v@),
        Atom::Integer(v) => text(int_chars(v as int)),
        Atom::Float(v) => seq![FragV::Float(v.digits@)],
        Atom::String(v) => text("\""@) + text(v@) + text("\""@),
        Atom::Paren(v) => text("("@) + show_expr(*v.data) + text(")"@),
        Atom::Tuple(v) if v@.len() == 1 => text("("@) + show_list_item(*v@[0].data) + text(",)"@),
        Atom::Tuple(v) => text("("@) + join_parts(list_items_parts(v@), ", "@) + text(")"@),
        Atom::ListDisplay(v) => text("["@) + join_parts(list_items_parts(v@), ", "@) + text("]"@),
        Atom::DictDisplay(v) => text("{"@) + join_parts(dict_items_parts(v@), ", "@) + text("}"@),
        Atom::Generator { val, iter } => text("("@) + show_list_item(*val.data) + text(" "@) + join_parts(comp_iters_parts(iter@), " "@) + text(")"@),
        Atom::ListComprehension { val, iter } => text("["@) + show_list_item(*val.data) + text(" "@) + join_parts(comp_iters_parts(iter@), " "@) + text("]"@),
        Atom::DictComprehension { val, iter } => text("{"@) + show_dict_item_comp(*val.data) + text(" "@) + join_parts(comp_iters_parts(iter@), " "@) + text("}"@),
        Atom::Block(v) if v@.len() == 1 => text("{"@) + join_parts(exprs_parts(v@), "; "@) + text(";}"@),
        Atom::Block(v) => text("{"@) + join_parts(exprs_parts(v@), "; "@) + text("}"@),
    }
}

/// How an expression prints.
pub open spec fn show_expr(x: Expr) -> Seq<FragV>
    decreases x,
{
    match x {
        Expr::Assign(l, r) => show_target(*l.data) + text(" := "@) + show_expr(*r.data),
        Expr::Function { args, block } => text("("@) + join_parts(params_parts(args.data.0@), ", "@) + text(") => "@) + show_enclosure(*block.data),
        Expr::Branch(v) => show_branch(v),
        Expr::Loop(v) => show_loop(v),
        Expr::Op(v) => show_op(v),
        Expr::Primary(v) => show_primary(v),
        Expr::Stmt(v) => show_stmt(v),
    }
}

/// How a primary prints.
pub open spec fn show_primary(x: Primary) -> Seq<FragV>
    decreases x,
{
    match x {
        Primary::Attribute(l, r) => show_primary(*l.data) + text("."@) + text(r.data.0@),
        Primary::Index(l, r) => show_primary(*l.data) + text("."@) + text(nat_chars(*r.data as nat)),
        Primary::Subscription(l, r) => show_primary(*l.data) + text("["@) + join_parts(exprs_parts(r@), ", "@) + text("]"@),
        Primary::Call(l, r) => show_primary(*l.data) + text("("@) + join_parts(exprs_parts(r.data.0@), ", "@) + text(")"@),
        Primary::Atom(v) => show_atom(v),
    }
}

/// How an operation prints.
pub open spec fn show_op(x: Op) -> Seq<FragV>
    decreases x,
{
    match x {
        Op::And(l, r) => show_expr(*l.data) + text(" and "@) + show_expr(*r.data),
        Op::Or(l, r) => show_expr(*l.data) + text(" or "@) + show_expr(*r.data),
        Op::Not(v) => text("not "@) + show_expr(*v.data),
        Op::CompareBound { l_val, l_op, val, r_op, r_val } => show_expr(*l_val.data) + text(" "@) + show_eqs(*l_op.data) + text(" "@) + show_expr(*val.data) + text(" "@) + show_eqs(*r_op.data) + text(" "@) + show_expr(*r_val.data),
        Op::Compare(l, op, r) => show_expr(*l.data) + text(" "@) + show_eqs(*op.data) + text(" "@) + show_expr(*r.data),
        Op::Range(v) => show_range(v),
        Op::Arith(l, op, r) => show_expr(*l.data) + show_space(*op.data) + show_arith(*op.data) + show_space(*op.data) + show_expr(*r.data),
        Op::Unary(op, v) => show_arith(*op.data) + show_expr(*v.data),
        Op::Coefficient(l, r) => show_atom(*l.data) + show_expr(*r.data),
        Op::Die(v) if *v.data is Id => text("d("@) + show_atom(*v.data) + text(")"@),
        Op::Die(v) => text("d"@) + show_atom(*v.data),
    }
}

/// How a range prints.
pub open spec fn show_range(x: Range) -> Seq<FragV>
    decreases x,
{
    match x {
        Range::Range { start, end } => show_expr(*start.data) + text(".."@) + show_expr(*end.data),
        Range::RangeFrom { start } => show_expr(*start.data) + text(".."@),
        Range::RangeTo { end } => text(".."@) + show_expr(*end.data),
        Range::RangeFull => text(".."@),
        Range::RangeI { start, end } => show_expr(*start.data) + text("..="@) + show_expr(*end.data),
        Range::RangeToI { end } => text("..="@) + show_expr(*end.data),
    }
}

/// How a conditional prints; an empty `else` block is left out.
pub open spec fn show_branch(x: Branch) -> Seq<FragV>
    decreases x,
{
    match x {
        Branch::If { val, t_block, f_block } if f_block.data.0@.len() == 0 => text("if "@) + show_expr(*val.data) + text(" "@) + show_enclosure(*t_block.data),
        Branch::If { val, t_block, f_block } => text("if "@) + show_expr(*val.data) + text(" "@) + show_enclosure(*t_block.data) + text(" else "@) + show_enclosure(*f_block.data),
        Branch::Match { val, arms } => text("match "@) + show_expr(*val.data) + text(" {"@) + join_parts(arms_parts(arms@), " "@) + text("}"@),
    }
}

/// How a loop without its label prints.
pub open spec fn show_loop_kind(x: LoopKind) -> Seq<FragV>
    decreases x,
{
    match x {
        LoopKind::For { tar, val, block } => text("for "@) + show_target(*tar.data) + text(" in "@) + show_expr(*val.data) + text(" "@) + show_enclosure(*block.data),
        LoopKind::While { val, block } => text("while "@) + show_expr(*val.data) + text(" "@) + show_enclosure(*block.data),
        LoopKind::Loop { block } => text("loop "@) + show_enclosure(*block.data),
    }
}

/// How a loop prints, after its label.
pub open spec fn show_loop(x: Loop) -> Seq<FragV>
    decreases x,
{
    match x {
        Loop { id: Some(id), data } => text(":"@) + text(id.data.0@) + text(": "@) + show_loop_kind(data),
        Loop { id: None, data } => show_loop_kind(data),
    }
}

/// How a match arm prints.
pub open spec fn show_arm(x: MatchArm) -> Seq<FragV>
    decreases x,
{
    match x {
        MatchArm { tar, block } => show_match(*tar.data) + text(" => "@) + show_enclosure(*block.data),
    }
}

/// How a comprehension clause prints.
pub open spec fn show_comp_iter(x: CompIter) -> Seq<FragV>
    decreases x,
{
    match x {
        CompIter::For { target, val } => text("for "@) + show_target(*target.data) + text(" in "@) + show_expr(*val.data),
        CompIter::If(v) => text("if "@) + show_expr(*v.data),
    }
}

/// How a display item prints.
pub open spec fn show_list_item(x: ListItem) -> Seq<FragV>
    decreases x,
{
    match x {
        ListItem::Expr(v) => show_expr(v),
        ListItem::Spread(v) => text("..."@) + show_expr(*v.data),
    }
}

/// How a dictionary item prints.
pub open spec fn show_dict_item(x: DictItem) -> Seq<FragV>
    decreases x,
{
    match x {
        DictItem::KeyVal { key, val } => text(key.data.0@) + text(": "@) + show_expr(*val.data),
        DictItem::DynKeyVal { key, val } => text("["@) + show_expr(*key.data) + text("]: "@) + show_expr(*val.data),
        DictItem::Shorthand(v) => text(v.0@),
        DictItem::Spread(v) => text("..."@) + show_expr(*v.data),
    }
}

/// How the item of a dictionary comprehension prints.
pub open spec fn show_dict_item_comp(x: DictItemComp) -> Seq<FragV>
    decreases x,
{
    match x {
        DictItemComp::DynKeyVal { key, val } => text("["@) + show_expr(*key.data) + text("]: "@) + show_expr(*val.data),
        DictItemComp::Spread(v) => text("..."@) + show_expr(*v.data),
    }
}

/// How a statement prints.
pub open spec fn show_stmt(x: Stmt) -> Seq<FragV>
    decreases x,
{
    match x {
        Stmt::Assign { tar, val } => show_target(*tar.data) + text(" = "@) + show_expr(*val.data),
        Stmt::Break { id: Some(id), val } => text("break :"@) + text(id.data.0@) + text(": "@) + show_expr(*val.data),
        Stmt::Break { id: None, val } => text("break "@) + show_expr(*val.data),
        Stmt::Return(v) => text("return "@) + show_expr(*v.data),
    }
}

/// How a block prints.
pub open spec fn show_enclosure(x: ExprEnclosure) -> Seq<FragV>
    decreases x,
{
    match x {
        ExprEnclosure(v) => text("{ "@) + join_parts(exprs_parts(v@), "; "@) + text(" }"@),
    }
}

/// How a target prints.
pub open spec fn show_target(x: Target) -> Seq<FragV>
    decreases x,
{
    match x {
        Target::Id(v) => text(v@),
        Target::TargetTuple(v) if v@.len() == 1 => text("("@) + join_parts(tli_t_parts(v@), ", "@) + text(",)"@),
        Target::TargetTuple(v) => text("("@) + join_parts(tli_t_parts(v@), ", "@) + text(")"@),
        Target::TargetList(v) => text("["@) + join_parts(tli_t_parts(v@), ", "@) + text("]"@),
        Target::TargetDict(v) => text("{"@) + join_parts(tdi_t_parts(v@), ", "@) + text("}"@),
    }
}

/// How an item of a tuple or list target prints.
pub open spec fn show_tli_t(x: TargetListItem<Target>) -> Seq<FragV>
    decreases x,
{
    match x {
        TargetListItem::Spread(v) => text("..."@) + show_target(*v.data),
        TargetListItem::Target(v) => show_target(v),
    }
}

/// How an item of a dictionary target prints.
pub open spec fn show_tdi_t(x: TargetDictItem<Target>) -> Seq<FragV>
    decreases x,
{
    match x {
        TargetDictItem::Pair { key, val } => text(key.data.0@) + text(": "@) + show_target(*val.data),
        TargetDictItem::Spread(v) => text("..."@) + show_target(*v.data),
        TargetDictItem::Target(v) => show_target(v),
    }
}

/// How each of the nodes prints.
pub open spec fn tli_t_parts(s: Seq<Node<TargetListItem<Target>>>) -> Seq<Seq<FragV>>
    decreases s,
{
    Seq::new(s.len(), |i: int| if 0 <= i < s.len() { show_tli_t(*s[i].data) } else { Seq::empty() })
}

/// How each of the nodes prints.
pub open spec fn tdi_t_parts(s: Seq<Node<TargetDictItem<Target>>>) -> Seq<Seq<FragV>>
    decreases s,
{
    Seq::new(s.len(), |i: int| if 0 <= i < s.len() { show_tdi_t(*s[i].data) } else { Seq::empty() })
}

/// How a target prints.
pub open spec fn show_target_expr(x: TargetExpr) -> Seq<FragV>
    decreases x,
{
    match x {
        TargetExpr::Id(v) => text(v@),
        TargetExpr::TargetTuple(v) if v@.len() == 1 => text("("@) + join_parts(tli_e_parts(v@), ", "@) + text(",)"@),
        TargetExpr::TargetTuple(v) => text("("@) + join_parts(tli_e_parts(v@), ", "@) + text(")"@),
        TargetExpr::TargetList(v) => text("["@) + join_parts(tli_e_parts(v@), ", "@) + text("]"@),
        TargetExpr::TargetDict(v) => text("{"@) + join_parts(tdi_e_parts(v@), ", "@) + text("}"@),
        TargetExpr::TargetExpr(t, v) => show_target_expr(*t.data) + text(" = "@) + show_expr(*v.data),
    }
}

/// How an item of a tuple or list target prints.
pub open spec fn show_tli_e(x: TargetListItem<TargetExpr>) -> Seq<FragV>
    decreases x,
{
    match x {
        TargetListItem::Spread(v) => text("..."@) + show_target_expr(*v.data),
        TargetListItem::Target(v) => show_target_expr(v),
    }
}

/// How an item of a dictionary target prints.
pub open spec fn show_tdi_e(x: TargetDictItem<TargetExpr>) -> Seq<FragV>
    decreases x,
{
    match x {
        TargetDictItem::Pair { key, val } => text(key.data.0@) + text(": "@) + show_target_expr(*val.data),
        TargetDictItem::Spread(v) => text("..."@) + show_target_expr(*v.data),
        TargetDictItem::Target(v) => show_target_expr(v),
    }
}

/// How each of the nodes prints.
pub open spec fn tli_e_parts(s: Seq<Node<TargetListItem<TargetExpr>>>) -> Seq<Seq<FragV>>
    decreases s,
{
    Seq::new(s.len(), |i: int| if 0 <= i < s.len() { show_tli_e(*s[i].data) } else { Seq::empty() })
}

/// How each of the nodes prints.
pub open spec fn tdi_e_parts(s: Seq<Node<TargetDictItem<TargetExpr>>>) -> Seq<Seq<FragV>>
    decreases s,
{
    Seq::new(s.len(), |i: int| if 0 <= i < s.len() { show_tdi_e(*s[i].data) } else { Seq::empty() })
}

/// How a target prints.
pub open spec fn show_match(x: Match) -> Seq<FragV>
    decreases x,
{
    match x {
        Match::Id(v) => text(v@),
        Match::TargetTuple(v) if v@.len() == 1 => text("("@) + join_parts(tli_m_parts(v@), ", "@) + text(",)"@),
        Match::TargetTuple(v) => text("("@) + join_parts(tli_m_parts(v@), ", "@) + text(")"@),
        Match::TargetList(v) => text("["@) + join_parts(tli_m_parts(v@), ", "@) + text("]"@),
        Match::TargetDict(v) => text("{"@) + join_parts(tdi_m_parts(v@), ", "@) + text("}"@),
        Match::Literal(v) => show_atom(v),
    }
}

/// How an item of a tuple or list target prints.
pub open spec fn show_tli_m(x: TargetListItem<Match>) -> Seq<FragV>
    decreases x,
{
    match x {
        TargetListItem::Spread(v) => text("..."@) + show_match(*v.data),
        TargetListItem::Target(v) => show_match(v),
    }
}

/// How an item of a dictionary target prints.
pub open spec fn show_tdi_m(x: TargetDictItem<Match>) -> Seq<FragV>
    decreases x,
{
    match x {
        TargetDictItem::Pair { key, val } => text(key.data.0@) + text(": "@) + show_match(*val.data),
        TargetDictItem::Spread(v) => text("..."@) + show_match(*v.data),
        TargetDictItem::Target(v) => show_match(v),
    }
}

/// How each of the nodes prints.
pub open spec fn tli_m_parts(s: Seq<Node<TargetListItem<Match>>>) -> Seq<Seq<FragV>>
    decreases s,
{
    Seq::new(s.len(), |i: int| if 0 <= i < s.len() { show_tli_m(*s[i].data) } else { Seq::empty() })
}

/// How each of the nodes prints.
pub open spec fn tdi_m_parts(s: Seq<Node<TargetDictItem<Match>>>) -> Seq<Seq<FragV>>
    decreases s,
{
    Seq::new(s.len(), |i: int| if 0 <= i < s.len() { show_tdi_m(*s[i].data) } else { Seq::empty() })
}

/// How a keyed item prints.
pub open spec fn show_key_datum(x: KeyDatum) -> Seq<FragV>
    decreases x,
{
    match x {
        KeyDatum::KeyDatum { key, val } => text((*key.data)@) + text(": "@) + show_expr(*val.data),
        KeyDatum::Shorthand(v) => text(v@),
        KeyDatum::Spread(v) => text("..."@) + show_expr(*v.data),
    }
}

/// How an item that may be spread prints.
pub open spec fn show_spread_item(x: SpreadItem) -> Seq<FragV>
    decreases x,
{
    match x {
        SpreadItem::Expr(v) => show_expr(v),
        SpreadItem::Spread(v) => text("..."@) + show_expr(*v.data),
    }
}

/// How a token prints; blanks and errors print their names.
pub open spec fn show_token(x: Token) -> Seq<FragV>
    decreases x,
{
    match x {
        Token::DELIM => text("\n"@),
        Token::COMMA => text(","@),
        Token::COLON => text(":"@),
        Token::ASSIGN => text("="@),
        Token::ASSIGNE => text(":="@),
        Token::ARROW => text("=>"@),
        Token::SPREAD => text("..."@),
        Token::FOR => text("for"@),
        Token::IN => text("in"@),
        Token::IF => text("if"@),
        Token::ELSE => text("else"@),
        Token::MATCH => text("match"@),
        Token::WHILE => text("while"@),
        Token::LOOP => text("loop"@),
        Token::BREAK => text("break"@),
        Token::OR => text("or"@),
        Token::AND => text("and"@),
        Token::NOT => text("not"@),
        Token::EQ => text("=="@),
        Token::NE => text("!="@),
        Token::LT => text("<"@),
        Token::LE => text("<="@),
        Token::GT => text(">"@),
        Token::GE => text(">="@),
        Token::RANGE => text(".."@),
        Token::RANGEI => text("..="@),
        Token::ADD => text("+"@),
        Token::SUB => text("-"@),
        Token::MUL => text("*"@),
        Token::DIV => text("/"@),
        Token::IDIV => text("/%"@),
        Token::MOD => text("%"@),
        Token::POW => text("^"@),
        Token::DIE => text("d"@),
        Token::DOT => text("."@),
        Token::LPAREN => text("("@),
        Token::RPAREN => text(")"@),
        Token::LBRACKET => text("["@),
        Token::RBRACKET => text("]"@),
        Token::LBRACE => text("{"@),
        Token::RBRACE => text("}"@),
        Token::SKIP => text("SKIP"@),
        Token::ERROR => text("ERROR"@),
        Token::String(v) => text("\""@) + text(v@) + text("\""@),
        Token::Number(NumberKind::Float(v)) => seq![FragV::Float(v.digits@)],
        Token::Number(NumberKind::Integer(v)) => text(int_chars(v as int)),
        Token::Number(NumberKind::Index(v)) => text("."@) + text(nat_chars(v as nat)),
        Token::Id(v) => text(v@),
    }
}

/// How a program prints: one expression a line.
pub open spec fn show_top(x: ExprTop) -> Seq<FragV>
    decreases x,
{
    match x {
        ExprTop(v) => join_parts(exprs_parts(v@), "\n"@),
    }
}

/// How the arguments of a call print.
pub open spec fn show_args(x: Args) -> Seq<FragV>
    decreases x,
{
    match x {
        Args(v) => join_parts(exprs_parts(v@), ", "@),
    }
}

/// How each of the nodes prints.
pub open spec fn exprs_parts(s: Seq<Node<Expr>>) -> Seq<Seq<FragV>>
    decreases s,
{
    Seq::new(s.len(), |i: int| if 0 <= i < s.len() { show_expr(*s[i].data) } else { Seq::empty() })
}

/// How each of the nodes prints.
pub open spec fn list_items_parts(s: Seq<Node<ListItem>>) -> Seq<Seq<FragV>>
    decreases s,
{
    Seq::new(s.len(), |i: int| if 0 <= i < s.len() { show_list_item(*s[i].data) } else { Seq::empty() })
}

/// How each of the nodes prints.
pub open spec fn dict_items_parts(s: Seq<Node<DictItem>>) -> Seq<Seq<FragV>>
    decreases s,
{
    Seq::new(s.len(), |i: int| if 0 <= i < s.len() { show_dict_item(*s[i].data) } else { Seq::empty() })
}

/// How each of the nodes prints.
pub open spec fn comp_iters_parts(s: Seq<Node<CompIter>>) -> Seq<Seq<FragV>>
    decreases s,
{
    Seq::new(s.len(), |i: int| if 0 <= i < s.len() { show_comp_iter(*s[i].data) } else { Seq::empty() })
}

/// How each of the nodes prints.
pub open spec fn arms_parts(s: Seq<Node<MatchArm>>) -> Seq<Seq<FragV>>
    decreases s,
{
    Seq::new(s.len(), |i: int| if 0 <= i < s.len() { show_arm(*s[i].data) } else { Seq::empty() })
}

/// How each of the nodes prints.
pub open spec fn params_parts(s: Seq<Node<TargetListItem<TargetExpr>>>) -> Seq<Seq<FragV>>
    decreases s,
{
    Seq::new(s.len(), |i: int| if 0 <= i < s.len() { show_tli_e(*s[i].data) } else { Seq::empty() })
}

/// Renders Atom, as `show_atom` says.
pub fn render_atom(x: &Atom, out: &mut Vec<Frag>)
    ensures
        frags(final(out)@) == frags(old(out)@) + show_atom(*x),
    decreases x, 1int,
{
    let ghost o = frags(out@);
    match x {
        Atom::Id(v) => {
            put_string(out, v.clone());
            assert(frags(out@) =~= o + show_atom(*x));
        },
        Atom::Integer(v) => {
            put_string(out, int_text(*v as i64));
            assert(frags(out@) =~= o + show_atom(*x));
        },
        Atom::Float(v) => {
            put_float(out, v);
            assert(frags(out@) =~= o + show_atom(*x));
        },
        Atom::String(v) => {
            put(out, "\"");
            put_string(out, v.clone());
            put(out, "\"");
            assert(frags(out@) =~= o + show_atom(*x));
        },
        Atom::Paren(v) => {
            put(out, "(");
            render_expr(&v.data, out);
            put(out, ")");
            assert(frags(out@) =~= o + show_atom(*x));
        },
        Atom::Tuple(v) if v.len() == 1 => {
            put(out, "(");
            render_list_item(&v[0].data, out);
            put(out, ",)");
            assert(frags(out@) =~= o + show_atom(*x));
        },
        Atom::Tuple(v) => {
            put(out, "(");
            render_list_items_join(v, ", ", out);
            put(out, ")");
            assert(frags(out@) =~= o + show_atom(*x));
        },
        Atom::ListDisplay(v) => {
            put(out, "[");
            render_list_items_join(v, ", ", out);
            put(out, "]");
            assert(frags(out@) =~= o + show_atom(*x));
        },
        Atom::DictDisplay(v) => {
            put(out, "{");
            render_dict_items_join(v, ", ", out);
            put(out, "}");
            assert(frags(out@) =~= o + show_atom(*x));
        },
        Atom::Generator { val, iter } => {
            put(out, "(");
            render_list_item(&val.data, out);
            put(out, " ");
            render_comp_iters_join(iter, " ", out);
            put(out, ")");
            assert(frags(out@) =~= o + show_atom(*x));
        },
        Atom::ListComprehension { val, iter } => {
            put(out, "[");
            render_list_item(&val.data, out);
            put(out, " ");
            render_comp_iters_join(iter, " ", out);
            put(out, "]");
            assert(frags(out@) =~= o + show_atom(*x));
        },
        Atom::DictComprehension { val, iter } => {
            put(out, "{");
            render_dict_item_comp(&val.data, out);
            put(out, " ");
            render_comp_iters_join(iter, " ", out);
            put(out, "}");
            assert(frags(out@) =~= o + show_atom(*x));
        },
        Atom::Block(v) if v.len() == 1 => {
            put(out, "{");
            render_exprs_join(v, "; ", out);
            put(out, ";}");
            assert(frags(out@) =~= o + show_atom(*x));
        },
        Atom::Block(v) => {
            put(out, "{");
            render_exprs_join(v, "; ", out);
            put(out, "}");
            assert(frags(out@) =~= o + show_atom(*x));
        },
    }
}

/// Renders Expr, as `show_expr` says.
pub fn render_expr(x: &Expr, out: &mut Vec<Frag>)
    ensures
        frags(final(out)@) == frags(old(out)@) + show_expr(*x),
    decreases x, 1int,
{
    let ghost o = frags(out@);
    match x {
        Expr::Assign(l, r) => {
            render_target(&l.data, out);
            put(out, " := ");
            render_expr(&r.data, out);
            assert(frags(out@) =~= o + show_expr(*x));
        },
        Expr::Function { args, block } => {
            put(out, "(");
            render_params_join(&args.data.0, ", ", out);
            put(out, ") => ");
            render_enclosure(&block.data, out);
            assert(frags(out@) =~= o + show_expr(*x));
        },
        Expr::Branch(v) => {
            render_branch(v, out);
            assert(frags(out@) =~= o + show_expr(*x));
        },
        Expr::Loop(v) => {
            render_loop(v, out);
            assert(frags(out@) =~= o + show_expr(*x));
        },
        Expr::Op(v) => {
            render_op(v, out);
            assert(frags(out@) =~= o + show_expr(*x));
        },
        Expr::Primary(v) => {
            render_primary(v, out);
            assert(frags(out@) =~= o + show_expr(*x));
        },
        Expr::Stmt(v) => {
            render_stmt(v, out);
            assert(frags(out@) =~= o + show_expr(*x));
        },
    }
}

/// Renders Primary, as `show_primary` says.
pub fn render_primary(x: &Primary, out: &mut Vec<Frag>)
    ensures
        frags(final(out)@) == frags(old(out)@) + show_primary(*x),
    decreases x, 1int,
{
    let ghost o = frags(out@);
    match x {
        Primary::Attribute(l, r) => {
            render_primary(&l.data, out);
            put(out, ".");
            put_string(out, r.data.0.clone());
            assert(frags(out@) =~= o + show_primary(*x));
        },
        Primary::Index(l, r) => {
            render_primary(&l.data, out);
            put(out, ".");
            put_string(out, nat_text(*r.data as u64));
            assert(frags(out@) =~= o + show_primary(*x));
        },
        Primary::Subscription(l, r) => {
            render_primary(&l.data, out);
            put(out, "[");
            render_exprs_join(r, ", ", out);
            put(out, "]");
            assert(frags(out@) =~= o + show_primary(*x));
        },
        Primary::Call(l, r) => {
            render_primary(&l.data, out);
            put(out, "(");
            render_exprs_join(&r.data.0, ", ", out);
            put(out, ")");
            assert(frags(out@) =~= o + show_primary(*x));
        },
        Primary::Atom(v) => {
            render_atom(v, out);
            assert(frags(out@) =~= o + show_primary(*x));
        },
    }
}

/// Renders Op, as `show_op` says.
#[verifier::spinoff_prover]
#[verifier::rlimit(60)]
pub fn render_op(x: &Op, out: &mut Vec<Frag>)
    ensures
        frags(final(out)@) == frags(old(out)@) + show_op(*x),
    decreases x, 1int,
{
    let ghost o = frags(out@);
    match x {
        Op::And(l, r) => {
            render_expr(&l.data, out);
            put(out, " and ");
            render_expr(&r.data, out);
            assert(frags(out@) =~= o + show_op(*x));
        },
        Op::Or(l, r) => {
            render_expr(&l.data, out);
            put(out, " or ");
            render_expr(&r.data, out);
            assert(frags(out@) =~= o + show_op(*x));
        },
        Op::Not(v) => {
            put(out, "not ");
            render_expr(&v.data, out);
            assert(frags(out@) =~= o + show_op(*x));
        },
        Op::CompareBound { l_val, l_op, val, r_op, r_val } => {
            render_expr(&l_val.data, out);
            put(out, " ");
            render_eqs(&l_op.data, out);
            put(out, " ");
            render_expr(&val.data, out);
            put(out, " ");
            render_eqs(&r_op.data, out);
            put(out, " ");
            render_expr(&r_val.data, out);
            assert(frags(out@) =~= o + show_op(*x));
        },
        Op::Compare(l, op, r) => {
            render_expr(&l.data, out);
            put(out, " ");
            render_eqs(&op.data, out);
            put(out, " ");
            render_expr(&r.data, out);
            assert(frags(out@) =~= o + show_op(*x));
        },
        Op::Range(v) => {
            render_range(v, out);
            assert(frags(out@) =~= o + show_op(*x));
        },
        Op::Arith(l, op, r) => {
            render_expr(&l.data, out);
            render_space(&op.data, out);
            render_arith(&op.data, out);
            render_space(&op.data, out);
            render_expr(&r.data, out);
            assert(frags(out@) =~= o + show_op(*x));
        },
        Op::Unary(op, v) => {
            render_arith(&op.data, out);
            render_expr(&v.data, out);
            assert(frags(out@) =~= o + show_op(*x));
        },
        Op::Coefficient(l, r) => {
            render_atom(&l.data, out);
            render_expr(&r.data, out);
            assert(frags(out@) =~= o + show_op(*x));
        },
        Op::Die(v) if matches!(&*v.data, Atom::Id(_)) => {
            put(out, "d(");
            render_atom(&v.data, out);
            put(out, ")");
            assert(frags(out@) =~= o + show_op(*x));
        },
        Op::Die(v) => {
            put(out, "d");
            render_atom(&v.data, out);
            assert(frags(out@) =~= o + show_op(*x));
        },
    }
}

/// Renders Range, as `show_range` says.
pub fn render_range(x: &Range, out: &mut Vec<Frag>)
    ensures
        frags(final(out)@) == frags(old(out)@) + show_range(*x),
    decreases x, 1int,
{
    let ghost o = frags(out@);
    match x {
        Range::Range { start, end } => {
            render_expr(&start.data, out);
            put(out, "..");
            render_expr(&end.data, out);
            assert(frags(out@) =~= o + show_range(*x));
        },
        Range::RangeFrom { start } => {
            render_expr(&start.data, out);
            put(out, "..");
            assert(frags(out@) =~= o + show_range(*x));
        },
        Range::RangeTo { end } => {
            put(out, "..");
            render_expr(&end.data, out);
            assert(frags(out@) =~= o + show_range(*x));
        },
        Range::RangeFull => {
            put(out, "..");
            assert(frags(out@) =~= o + show_range(*x));
        },
        Range::RangeI { start, end } => {
            render_expr(&start.data, out);
            put(out, "..=");
            render_expr(&end.data, out);
            assert(frags(out@) =~= o + show_range(*x));
        },
        Range::RangeToI { end } => {
            put(out, "..=");
            render_expr(&end.data, out);
            assert(frags(out@) =~= o + show_range(*x));
        },
    }
}

/// Renders Branch, as `show_branch` says.
pub fn render_branch(x: &Branch, out: &mut Vec<Frag>)
    ensures
        frags(final(out)@) == frags(old(out)@) + show_branch(*x),
    decreases x, 1int,
{
    let ghost o = frags(out@);
    match x {
        Branch::If { val, t_block, f_block } if f_block.data.0.len() == 0 => {
            put(out, "if ");
            render_expr(&val.data, out);
            put(out, " ");
            render_enclosure(&t_block.data, out);
            assert(frags(out@) =~= o + show_branch(*x));
        },
        Branch::If { val, t_block, f_block } => {
            put(out, "if ");
            render_expr(&val.data, out);
            put(out, " ");
            render_enclosure(&t_block.data, out);
            put(out, " else ");
            render_enclosure(&f_block.data, out);
            assert(frags(out@) =~= o + show_branch(*x));
        },
        Branch::Match { val, arms } => {
            put(out, "match ");
            render_expr(&val.data, out);
            put(out, " {");
            render_arms_join(arms, " ", out);
            put(out, "}");
            assert(frags(out@) =~= o + show_branch(*x));
        },
    }
}

/// Renders LoopKind, as `show_loop_kind` says.
pub fn render_loop_kind(x: &LoopKind, out: &mut Vec<Frag>)
    ensures
        frags(final(out)@) == frags(old(out)@) + show_loop_kind(*x),
    decreases x, 1int,
{
    let ghost o = frags(out@);
    match x {
        LoopKind::For { tar, val, block } => {
            put(out, "for ");
            render_target(&tar.data, out);
            put(out, " in ");
            render_expr(&val.data, out);
            put(out, " ");
            render_enclosure(&block.data, out);
            assert(frags(out@) =~= o + show_loop_kind(*x));
        },
        LoopKind::While { val, block } => {
            put(out, "while ");
            render_expr(&val.data, out);
            put(out, " ");
            render_enclosure(&block.data, out);
            assert(frags(out@) =~= o + show_loop_kind(*x));
        },
        LoopKind::Loop { block } => {
            put(out, "loop ");
            render_enclosure(&block.data, out);
            assert(frags(out@) =~= o + show_loop_kind(*x));
        },
    }
}

/// Renders Loop, as `show_loop` says.
pub fn render_loop(x: &Loop, out: &mut Vec<Frag>)
    ensures
        frags(final(out)@) == frags(old(out)@) + show_loop(*x),
    decreases x, 1int,
{
    let ghost o = frags(out@);
    match x {
        Loop { id: Some(id), data } => {
            put(out, ":");
            put_string(out, id.data.0.clone());
            put(out, ": ");
            render_loop_kind(data, out);
            assert(frags(out@) =~= o + show_loop(*x));
        },
        Loop { id: None, data } => {
            render_loop_kind(data, out);
            assert(frags(out@) =~= o + show_loop(*x));
        },
    }
}

/// Renders MatchArm, as `show_arm` says.
pub fn render_arm(x: &MatchArm, out: &mut Vec<Frag>)
    ensures
        frags(final(out)@) == frags(old(out)@) + show_arm(*x),
    decreases x, 1int,
{
    let ghost o = frags(out@);
    match x {
        MatchArm { tar, block } => {
            render_match(&tar.data, out);
            put(out, " => ");
            render_enclosure(&block.data, out);
            assert(frags(out@) =~= o + show_arm(*x));
        },
    }
}

/// Renders CompIter, as `show_comp_iter` says.
pub fn render_comp_iter(x: &CompIter, out: &mut Vec<Frag>)
    ensures
        frags(final(out)@) == frags(old(out)@) + show_comp_iter(*x),
    decreases x, 1int,
{
    let ghost o = frags(out@);
    match x {
        CompIter::For { target, val } => {
            put(out, "for ");
            render_target(&target.data, out);
            put(out, " in ");
            render_expr(&val.data, out);
            assert(frags(out@) =~= o + show_comp_iter(*x));
        },
        CompIter::If(v) => {
            put(out, "if ");
            render_expr(&v.data, out);
            assert(frags(out@) =~= o + show_comp_iter(*x));
        },
    }
}

/// Renders ListItem, as `show_list_item` says.
pub fn render_list_item(x: &ListItem, out: &mut Vec<Frag>)
    ensures
        frags(final(out)@) == frags(old(out)@) + show_list_item(*x),
    decreases x, 1int,
{
    let ghost o = frags(out@);
    match x {
        ListItem::Expr(v) => {
            render_expr(v, out);
            assert(frags(out@) =~= o + show_list_item(*x));
        },
        ListItem::Spread(v) => {
            put(out, "...");
            render_expr(&v.data, out);
            assert(frags(out@) =~= o + show_list_item(*x));
        },
    }
}

/// Renders DictItem, as `show_dict_item` says.
pub fn render_dict_item(x: &DictItem, out: &mut Vec<Frag>)
    ensures
        frags(final(out)@) == frags(old(out)@) + show_dict_item(*x),
    decreases x, 1int,
{
    let ghost o = frags(out@);
    match x {
        DictItem::KeyVal { key, val } => {
            put_string(out, key.data.0.clone());
            put(out, ": ");
            render_expr(&val.data, out);
            assert(frags(out@) =~= o + show_dict_item(*x));
        },
        DictItem::DynKeyVal { key, val } => {
            put(out, "[");
            render_expr(&key.data, out);
            put(out, "]: ");
            render_expr(&val.data, out);
            assert(frags(out@) =~= o + show_dict_item(*x));
        },
        DictItem::Shorthand(v) => {
            put_string(out, v.0.clone());
            assert(frags(out@) =~= o + show_dict_item(*x));
        },
        DictItem::Spread(v) => {
            put(out, "...");
            render_expr(&v.data, out);
            assert(frags(out@) =~= o + show_dict_item(*x));
        },
    }
}

/// Renders DictItemComp, as `show_dict_item_comp` says.
pub fn render_dict_item_comp(x: &DictItemComp, out: &mut Vec<Frag>)
    ensures
        frags(final(out)@) == frags(old(out)@) + show_dict_item_comp(*x),
    decreases x, 1int,
{
    let ghost o = frags(out@);
    match x {
        DictItemComp::DynKeyVal { key, val } => {
            put(out, "[");
            render_expr(&key.data, out);
            put(out, "]: ");
            render_expr(&val.data, out);
            assert(frags(out@) =~= o + show_dict_item_comp(*x));
        },
        DictItemComp::Spread(v) => {
            put(out, "...");
            render_expr(&v.data, out);
            assert(frags(out@) =~= o + show_dict_item_comp(*x));
        },
    }
}

/// Renders Stmt, as `show_stmt` says.
pub fn render_stmt(x: &Stmt, out: &mut Vec<Frag>)
    ensures
        frags(final(out)@) == frags(old(out)@) + show_stmt(*x),
    decreases x, 1int,
{
    let ghost o = frags(out@);
    match x {
        Stmt::Assign { tar, val } => {
            render_target(&tar.data, out);
            put(out, " = ");
            render_expr(&val.data, out);
            assert(frags(out@) =~= o + show_stmt(*x));
        },
        Stmt::Break { id: Some(id), val } => {
            put(out, "break :");
            put_string(out, id.data.0.clone());
            put(out, ": ");
            render_expr(&val.data, out);
            assert(frags(out@) =~= o + show_stmt(*x));
        },
        Stmt::Break { id: None, val } => {
            put(out, "break ");
            render_expr(&val.data, out);
            assert(frags(out@) =~= o + show_stmt(*x));
        },
        Stmt::Return(v) => {
            put(out, "return ");
            render_expr(&v.data, out);
            assert(frags(out@) =~= o + show_stmt(*x));
        },
    }
}

/// Renders ExprEnclosure, as `show_enclosure` says.
pub fn render_enclosure(x: &ExprEnclosure, out: &mut Vec<Frag>)
    ensures
        frags(final(out)@) == frags(old(out)@) + show_enclosure(*x),
    decreases x, 1int,
{
    let ghost o = frags(out@);
    match x {
        ExprEnclosure(v) => {
            put(out, "{ ");
            render_exprs_join(v, "; ", out);
            put(out, " }");
            assert(frags(out@) =~= o + show_enclosure(*x));
        },
    }
}

/// Renders Target, as `show_target` says.
pub fn render_target(x: &Target, out: &mut Vec<Frag>)
    ensures
        frags(final(out)@) == frags(old(out)@) + show_target(*x),
    decreases x, 1int,
{
    let ghost o = frags(out@);
    match x {
        Target::Id(v) => {
            put_string(out, v.clone());
            assert(frags(out@) =~= o + show_target(*x));
        },
        Target::TargetTuple(v) if v.len() == 1 => {
            put(out, "(");
            render_tli_t_join(v, ", ", out);
            put(out, ",)");
            assert(frags(out@) =~= o + show_target(*x));
        },
        Target::TargetTuple(v) => {
            put(out, "(");
            render_tli_t_join(v, ", ", out);
            put(out, ")");
            assert(frags(out@) =~= o + show_target(*x));
        },
        Target::TargetList(v) => {
            put(out, "[");
            render_tli_t_join(v, ", ", out);
            put(out, "]");
            assert(frags(out@) =~= o + show_target(*x));
        },
        Target::TargetDict(v) => {
            put(out, "{");
            render_tdi_t_join(v, ", ", out);
            put(out, "}");
            assert(frags(out@) =~= o + show_target(*x));
        },
    }
}

/// Renders TargetListItem, as `show_tli_t` says.
pub fn render_tli_t(x: &TargetListItem<Target>, out: &mut Vec<Frag>)
    ensures
        frags(final(out)@) == frags(old(out)@) + show_tli_t(*x),
    decreases x, 1int,
{
    let ghost o = frags(out@);
    match x {
        TargetListItem::Spread(v) => {
            put(out, "...");
            render_target(&v.data, out);
            assert(frags(out@) =~= o + show_tli_t(*x));
        },
        TargetListItem::Target(v) => {
            render_target(v, out);
            assert(frags(out@) =~= o + show_tli_t(*x));
        },
    }
}

/// Renders TargetDictItem, as `show_tdi_t` says.
pub fn render_tdi_t(x: &TargetDictItem<Target>, out: &mut Vec<Frag>)
    ensures
        frags(final(out)@) == frags(old(out)@) + show_tdi_t(*x),
    decreases x, 1int,
{
    let ghost o = frags(out@);
    match x {
        TargetDictItem::Pair { key, val } => {
            put_string(out, key.data.0.clone());
            put(out, ": ");
            render_target(&val.data, out);
            assert(frags(out@) =~= o + show_tdi_t(*x));
        },
        TargetDictItem::Spread(v) => {
            put(out, "...");
            render_target(&v.data, out);
            assert(frags(out@) =~= o + show_tdi_t(*x));
        },
        TargetDictItem::Target(v) => {
            render_target(v, out);
            assert(frags(out@) =~= o + show_tdi_t(*x));
        },
    }
}

/// Renders the nodes with `d` between each two.
pub fn render_tli_t_join(xs: &Vec<Node<TargetListItem<Target>>>, d: &str, out: &mut Vec<Frag>)
    ensures
        frags(final(out)@) == frags(old(out)@) + join_parts(tli_t_parts(xs@), d@),
    decreases xs@, 0int,
{
    let ghost parts = tli_t_parts(xs@);
    let ghost o = frags(out@);
    let mut k: usize = 0;
    while k < xs.len()
        invariant
            k <= xs@.len(),
            parts == tli_t_parts(xs@),
            parts.len() == xs@.len(),
            frags(out@) == o + join_parts(parts.take(k as int), d@),
        decreases xs@.len() - k,
    {
        proof {
            lemma_join_step(parts, d@, k as int);
        }
        if k > 0 {
            put(out, d);
        }
        render_tli_t(&xs[k].data, out);
        proof {
            assert(frags(out@) =~= o + join_parts(parts.take(k + 1), d@));
        }
        k = k + 1;
    }
    proof {
        assert(parts.take(xs@.len() as int) =~= parts);
    }
}

/// Renders the nodes with `d` between each two.
pub fn render_tdi_t_join(xs: &Vec<Node<TargetDictItem<Target>>>, d: &str, out: &mut Vec<Frag>)
    ensures
        frags(final(out)@) == frags(old(out)@) + join_parts(tdi_t_parts(xs@), d@),
    decreases xs@, 0int,
{
    let ghost parts = tdi_t_parts(xs@);
    let ghost o = frags(out@);
    let mut k: usize = 0;
    while k < xs.len()
        invariant
            k <= xs@.len(),
            parts == tdi_t_parts(xs@),
            parts.len() == xs@.len(),
            frags(out@) == o + join_parts(parts.take(k as int), d@),
        decreases xs@.len() - k,
    {
        proof {
            lemma_join_step(parts, d@, k as int);
        }
        if k > 0 {
            put(out, d);
        }
        render_tdi_t(&xs[k].data, out);
        proof {
            assert(frags(out@) =~= o + join_parts(parts.take(k + 1), d@));
        }
        k = k + 1;
    }
    proof {
        assert(parts.take(xs@.len() as int) =~= parts);
    }
}

/// Renders TargetExpr, as `show_target_expr` says.
pub fn render_target_expr(x: &TargetExpr, out: &mut Vec<Frag>)
    ensures
        frags(final(out)@) == frags(old(out)@) + show_target_expr(*x),
    decreases x, 1int,
{
    let ghost o = frags(out@);
    match x {
        TargetExpr::Id(v) => {
            put_string(out, v.clone());
            assert(frags(out@) =~= o + show_target_expr(*x));
        },
        TargetExpr::TargetTuple(v) if v.len() == 1 => {
            put(out, "(");
            render_tli_e_join(v, ", ", out);
            put(out, ",)");
            assert(frags(out@) =~= o + show_target_expr(*x));
        },
        TargetExpr::TargetTuple(v) => {
            put(out, "(");
            render_tli_e_join(v, ", ", out);
            put(out, ")");
            assert(frags(out@) =~= o + show_target_expr(*x));
        },
        TargetExpr::TargetList(v) => {
            put(out, "[");
            render_tli_e_join(v, ", ", out);
            put(out, "]");
            assert(frags(out@) =~= o + show_target_expr(*x));
        },
        TargetExpr::TargetDict(v) => {
            put(out, "{");
            render_tdi_e_join(v, ", ", out);
            put(out, "}");
            assert(frags(out@) =~= o + show_target_expr(*x));
        },
        TargetExpr::TargetExpr(t, v) => {
            render_target_expr(&t.data, out);
            put(out, " = ");
            render_expr(&v.data, out);
            assert(frags(out@) =~= o + show_target_expr(*x));
        },
    }
}

/// Renders TargetListItem, as `show_tli_e` says.
pub fn render_tli_e(x: &TargetListItem<TargetExpr>, out: &mut Vec<Frag>)
    ensures
        frags(final(out)@) == frags(old(out)@) + show_tli_e(*x),
    decreases x, 1int,
{
    let ghost o = frags(out@);
    match x {
        TargetListItem::Spread(v) => {
            put(out, "...");
            render_target_expr(&v.data, out);
            assert(frags(out@) =~= o + show_tli_e(*x));
        },
        TargetListItem::Target(v) => {
            render_target_expr(v, out);
            assert(frags(out@) =~= o + show_tli_e(*x));
        },
    }
}

/// Renders TargetDictItem, as `show_tdi_e` says.
pub fn render_tdi_e(x: &TargetDictItem<TargetExpr>, out: &mut Vec<Frag>)
    ensures
        frags(final(out)@) == frags(old(out)@) + show_tdi_e(*x),
    decreases x, 1int,
{
    let ghost o = frags(out@);
    match x {
        TargetDictItem::Pair { key, val } => {
            put_string(out, key.data.0.clone());
            put(out, ": ");
            render_target_expr(&val.data, out);
            assert(frags(out@) =~= o + show_tdi_e(*x));
        },
        TargetDictItem::Spread(v) => {
            put(out, "...");
            render_target_expr(&v.data, out);
            assert(frags(out@) =~= o + show_tdi_e(*x));
        },
        TargetDictItem::Target(v) => {
            render_target_expr(v, out);
            assert(frags(out@) =~= o + show_tdi_e(*x));
        },
    }
}

/// Renders the nodes with `d` between each two.
pub fn render_tli_e_join(xs: &Vec<Node<TargetListItem<TargetExpr>>>, d: &str, out: &mut Vec<Frag>)
    ensures
        frags(final(out)@) == frags(old(out)@) + join_parts(tli_e_parts(xs@), d@),
    decreases xs@, 0int,
{
    let ghost parts = tli_e_parts(xs@);
    let ghost o = frags(out@);
    let mut k: usize = 0;
    while k < xs.len()
        invariant
            k <= xs@.len(),
            parts == tli_e_parts(xs@),
            parts.len() == xs@.len(),
            frags(out@) == o + join_parts(parts.take(k as int), d@),
        decreases xs@.len() - k,
    {
        proof {
            lemma_join_step(parts, d@, k as int);
        }
        if k > 0 {
            put(out, d);
        }
        render_tli_e(&xs[k].data, out);
        proof {
            assert(frags(out@) =~= o + join_parts(parts.take(k + 1), d@));
        }
        k = k + 1;
    }
    proof {
        assert(parts.take(xs@.len() as int) =~= parts);
    }
}

/// Renders the nodes with `d` between each two.
pub fn render_tdi_e_join(xs: &Vec<Node<TargetDictItem<TargetExpr>>>, d: &str, out: &mut Vec<Frag>)
    ensures
        frags(final(out)@) == frags(old(out)@) + join_parts(tdi_e_parts(xs@), d@),
    decreases xs@, 0int,
{
    let ghost parts = tdi_e_parts(xs@);
    let ghost o = frags(out@);
    let mut k: usize = 0;
    while k < xs.len()
        invariant
            k <= xs@.len(),
            parts == tdi_e_parts(xs@),
            parts.len() == xs@.len(),
            frags(out@) == o + join_parts(parts.take(k as int), d@),
        decreases xs@.len() - k,
    {
        proof {
            lemma_join_step(parts, d@, k as int);
        }
        if k > 0 {
            put(out, d);
        }
        render_tdi_e(&xs[k].data, out);
        proof {
            assert(frags(out@) =~= o + join_parts(parts.take(k + 1), d@));
        }
        k = k + 1;
    }
    proof {
        assert(parts.take(xs@.len() as int) =~= parts);
    }
}

/// Renders Match, as `show_match` says.
pub fn render_match(x: &Match, out: &mut Vec<Frag>)
    ensures
        frags(final(out)@) == frags(old(out)@) + show_match(*x),
    decreases x, 1int,
{
    let ghost o = frags(out@);
    match x {
        Match::Id(v) => {
            put_string(out, v.clone());
            assert(frags(out@) =~= o + show_match(*x));
        },
        Match::TargetTuple(v) if v.len() == 1 => {
            put(out, "(");
            render_tli_m_join(v, ", ", out);
            put(out, ",)");
            assert(frags(out@) =~= o + show_match(*x));
        },
        Match::TargetTuple(v) => {
            put(out, "(");
            render_tli_m_join(v, ", ", out);
            put(out, ")");
            assert(frags(out@) =~= o + show_match(*x));
        },
        Match::TargetList(v) => {
            put(out, "[");
            render_tli_m_join(v, ", ", out);
            put(out, "]");
            assert(frags(out@) =~= o + show_match(*x));
        },
        Match::TargetDict(v) => {
            put(out, "{");
            render_tdi_m_join(v, ", ", out);
            put(out, "}");
            assert(frags(out@) =~= o + show_match(*x));
        },
        Match::Literal(v) => {
            render_atom(v, out);
            assert(frags(out@) =~= o + show_match(*x));
        },
    }
}

/// Renders TargetListItem, as `show_tli_m` says.
pub fn render_tli_m(x: &TargetListItem<Match>, out: &mut Vec<Frag>)
    ensures
        frags(final(out)@) == frags(old(out)@) + show_tli_m(*x),
    decreases x, 1int,
{
    let ghost o = frags(out@);
    match x {
        TargetListItem::Spread(v) => {
            put(out, "...");
            render_match(&v.data, out);
            assert(frags(out@) =~= o + show_tli_m(*x));
        },
        TargetListItem::Target(v) => {
            render_match(v, out);
            assert(frags(out@) =~= o + show_tli_m(*x));
        },
    }
}

/// Renders TargetDictItem, as `show_tdi_m` says.
pub fn render_tdi_m(x: &TargetDictItem<Match>, out: &mut Vec<Frag>)
    ensures
        frags(final(out)@) == frags(old(out)@) + show_tdi_m(*x),
    decreases x, 1int,
{
    let ghost o = frags(out@);
    match x {
        TargetDictItem::Pair { key, val } => {
            put_string(out, key.data.0.clone());
            put(out, ": ");
            render_match(&val.data, out);
            assert(frags(out@) =~= o + show_tdi_m(*x));
        },
        TargetDictItem::Spread(v) => {
            put(out, "...");
            render_match(&v.data, out);
            assert(frags(out@) =~= o + show_tdi_m(*x));
        },
        TargetDictItem::Target(v) => {
            render_match(v, out);
            assert(frags(out@) =~= o + show_tdi_m(*x));
        },
    }
}

/// Renders the nodes with `d` between each two.
pub fn render_tli_m_join(xs: &Vec<Node<TargetListItem<Match>>>, d: &str, out: &mut Vec<Frag>)
    ensures
        frags(final(out)@) == frags(old(out)@) + join_parts(tli_m_parts(xs@), d@),
    decreases xs@, 0int,
{
    let ghost parts = tli_m_parts(xs@);
    let ghost o = frags(out@);
    let mut k: usize = 0;
    while k < xs.len()
        invariant
            k <= xs@.len(),
            parts == tli_m_parts(xs@),
            parts.len() == xs@.len(),
            frags(out@) == o + join_parts(parts.take(k as int), d@),
        decreases xs@.len() - k,
    {
        proof {
            lemma_join_step(parts, d@, k as int);
        }
        if k > 0 {
            put(out, d);
        }
        render_tli_m(&xs[k].data, out);
        proof {
            assert(frags(out@) =~= o + join_parts(parts.take(k + 1), d@));
        }
        k = k + 1;
    }
    proof {
        assert(parts.take(xs@.len() as int) =~= parts);
    }
}

/// Renders the nodes with `d` between each two.
pub fn render_tdi_m_join(xs: &Vec<Node<TargetDictItem<Match>>>, d: &str, out: &mut Vec<Frag>)
    ensures
        frags(final(out)@) == frags(old(out)@) + join_parts(tdi_m_parts(xs@), d@),
    decreases xs@, 0int,
{
    let ghost parts = tdi_m_parts(xs@);
    let ghost o = frags(out@);
    let mut k: usize = 0;
    while k < xs.len()
        invariant
            k <= xs@.len(),
            parts == tdi_m_parts(xs@),
            parts.len() == xs@.len(),
            frags(out@) == o + join_parts(parts.take(k as int), d@),
        decreases xs@.len() - k,
    {
        proof {
            lemma_join_step(parts, d@, k as int);
        }
        if k > 0 {
            put(out, d);
        }
        render_tdi_m(&xs[k].data, out);
        proof {
            assert(frags(out@) =~= o + join_parts(parts.take(k + 1), d@));
        }
        k = k + 1;
    }
    proof {
        assert(parts.take(xs@.len() as int) =~= parts);
    }
}

/// Renders KeyDatum, as `show_key_datum` says.
pub fn render_key_datum(x: &KeyDatum, out: &mut Vec<Frag>)
    ensures
        frags(final(out)@) == frags(old(out)@) + show_key_datum(*x),
    decreases x, 1int,
{
    let ghost o = frags(out@);
    match x {
        KeyDatum::KeyDatum { key, val } => {
            put_string(out, (*key.data).clone());
            put(out, ": ");
            render_expr(&val.data, out);
            assert(frags(out@) =~= o + show_key_datum(*x));
        },
        KeyDatum::Shorthand(v) => {
            put_string(out, v.clone());
            assert(frags(out@) =~= o + show_key_datum(*x));
        },
        KeyDatum::Spread(v) => {
            put(out, "...");
            render_expr(&v.data, out);
            assert(frags(out@) =~= o + show_key_datum(*x));
        },
    }
}

/// Renders SpreadItem, as `show_spread_item` says.
pub fn render_spread_item(x: &SpreadItem, out: &mut Vec<Frag>)
    ensures
        frags(final(out)@) == frags(old(out)@) + show_spread_item(*x),
    decreases x, 1int,
{
    let ghost o = frags(out@);
    match x {
        SpreadItem::Expr(v) => {
            render_expr(v, out);
            assert(frags(out@) =~= o + show_spread_item(*x));
        },
        SpreadItem::Spread(v) => {
            put(out, "...");
            render_expr(&v.data, out);
            assert(frags(out@) =~= o + show_spread_item(*x));
        },
    }
}

/// Renders Token, as `show_token` says.
pub fn render_token(x: &Token, out: &mut Vec<Frag>)
    ensures
        frags(final(out)@) == frags(old(out)@) + show_token(*x),
    decreases x, 1int,
{
    let ghost o = frags(out@);
    match x {
        Token::DELIM => {
            put(out, "\n");
            assert(frags(out@) =~= o + show_token(*x));
        },
        Token::COMMA => {
            put(out, ",");
            assert(frags(out@) =~= o + show_token(*x));
        },
        Token::COLON => {
            put(out, ":");
            assert(frags(out@) =~= o + show_token(*x));
        },
        Token::ASSIGN => {
            put(out, "=");
            assert(frags(out@) =~= o + show_token(*x));
        },
        Token::ASSIGNE => {
            put(out, ":=");
            assert(frags(out@) =~= o + show_token(*x));
        },
        Token::ARROW => {
            put(out, "=>");
            assert(frags(out@) =~= o + show_token(*x));
        },
        Token::SPREAD => {
            put(out, "...");
            assert(frags(out@) =~= o + show_token(*x));
        },
        Token::FOR => {
            put(out, "for");
            assert(frags(out@) =~= o + show_token(*x));
        },
        Token::IN => {
            put(out, "in");
            assert(frags(out@) =~= o + show_token(*x));
        },
        Token::IF => {
            put(out, "if");
            assert(frags(out@) =~= o + show_token(*x));
        },
        Token::ELSE => {
            put(out, "else");
            assert(frags(out@) =~= o + show_token(*x));
        },
        Token::MATCH => {
            put(out, "match");
            assert(frags(out@) =~= o + show_token(*x));
        },
        Token::WHILE => {
            put(out, "while");
            assert(frags(out@) =~= o + show_token(*x));
        },
        Token::LOOP => {
            put(out, "loop");
            assert(frags(out@) =~= o + show_token(*x));
        },
        Token::BREAK => {
            put(out, "break");
            assert(frags(out@) =~= o + show_token(*x));
        },
        Token::OR => {
            put(out, "or");
            assert(frags(out@) =~= o + show_token(*x));
        },
        Token::AND => {
            put(out, "and");
            assert(frags(out@) =~= o + show_token(*x));
        },
        Token::NOT => {
            put(out, "not");
            assert(frags(out@) =~= o + show_token(*x));
        },
        Token::EQ => {
            put(out, "==");
            assert(frags(out@) =~= o + show_token(*x));
        },
        Token::NE => {
            put(out, "!=");
            assert(frags(out@) =~= o + show_token(*x));
        },
        Token::LT => {
            put(out, "<");
            assert(frags(out@) =~= o + show_token(*x));
        },
        Token::LE => {
            put(out, "<=");
            assert(frags(out@) =~= o + show_token(*x));
        },
        Token::GT => {
            put(out, ">");
            assert(frags(out@) =~= o + show_token(*x));
        },
        Token::GE => {
            put(out, ">=");
            assert(frags(out@) =~= o + show_token(*x));
        },
        Token::RANGE => {
            put(out, "..");
            assert(frags(out@) =~= o + show_token(*x));
        },
        Token::RANGEI => {
            put(out, "..=");
            assert(frags(out@) =~= o + show_token(*x));
        },
        Token::ADD => {
            put(out, "+");
            assert(frags(out@) =~= o + show_token(*x));
        },
        Token::SUB => {
            put(out, "-");
            assert(frags(out@) =~= o + show_token(*x));
        },
        Token::MUL => {
            put(out, "*");
            assert(frags(out@) =~= o + show_token(*x));
        },
        Token::DIV => {
            put(out, "/");
            assert(frags(out@) =~= o + show_token(*x));
        },
        Token::IDIV => {
            put(out, "/%");
            assert(frags(out@) =~= o + show_token(*x));
        },
        Token::MOD => {
            put(out, "%");
            assert(frags(out@) =~= o + show_token(*x));
        },
        Token::POW => {
            put(out, "^");
            assert(frags(out@) =~= o + show_token(*x));
        },
        Token::DIE => {
            put(out, "d");
            assert(frags(out@) =~= o + show_token(*x));
        },
        Token::DOT => {
            put(out, ".");
            assert(frags(out@) =~= o + show_token(*x));
        },
        Token::LPAREN => {
            put(out, "(");
            assert(frags(out@) =~= o + show_token(*x));
        },
        Token::RPAREN => {
            put(out, ")");
            assert(frags(out@) =~= o + show_token(*x));
        },
        Token::LBRACKET => {
            put(out, "[");
            assert(frags(out@) =~= o + show_token(*x));
        },
        Token::RBRACKET => {
            put(out, "]");
            assert(frags(out@) =~= o + show_token(*x));
        },
        Token::LBRACE => {
            put(out, "{");
            assert(frags(out@) =~= o + show_token(*x));
        },
        Token::RBRACE => {
            put(out, "}");
            assert(frags(out@) =~= o + show_token(*x));
        },
        Token::SKIP => {
            put(out, "SKIP");
            assert(frags(out@) =~= o + show_token(*x));
        },
        Token::ERROR => {
            put(out, "ERROR");
            assert(frags(out@) =~= o + show_token(*x));
        },
        Token::String(v) => {
            put(out, "\"");
            put_string(out, v.clone());
            put(out, "\"");
            assert(frags(out@) =~= o + show_token(*x));
        },
        Token::Number(NumberKind::Float(v)) => {
            put_float(out, v);
            assert(frags(out@) =~= o + show_token(*x));
        },
        Token::Number(NumberKind::Integer(v)) => {
            put_string(out, int_text(*v as i64));
            assert(frags(out@) =~= o + show_token(*x));
        },
        Token::Number(NumberKind::Index(v)) => {
            put(out, ".");
            put_string(out, nat_text(*v as u64));
            assert(frags(out@) =~= o + show_token(*x));
        },
        Token::Id(v) => {
            put_string(out, v.clone());
            assert(frags(out@) =~= o + show_token(*x));
        },
    }
}

/// Renders ExprTop, as `show_top` says.
pub fn render_top(x: &ExprTop, out: &mut Vec<Frag>)
    ensures
        frags(final(out)@) == frags(old(out)@) + show_top(*x),
    decreases x, 1int,
{
    let ghost o = frags(out@);
    match x {
        ExprTop(v) => {
            render_exprs_join(v, "\n", out);
            assert(frags(out@) =~= o + show_top(*x));
        },
    }
}

/// Renders Args, as `show_args` says.
pub fn render_args(x: &Args, out: &mut Vec<Frag>)
    ensures
        frags(final(out)@) == frags(old(out)@) + show_args(*x),
    decreases x, 1int,
{
    let ghost o = frags(out@);
    match x {
        Args(v) => {
            render_exprs_join(v, ", ", out);
            assert(frags(out@) =~= o + show_args(*x));
        },
    }
}

/// Renders the nodes with `d` between each two.
pub fn render_exprs_join(xs: &Vec<Node<Expr>>, d: &str, out: &mut Vec<Frag>)
    ensures
        frags(final(out)@) == frags(old(out)@) + join_parts(exprs_parts(xs@), d@),
    decreases xs@, 0int,
{
    let ghost parts = exprs_parts(xs@);
    let ghost o = frags(out@);
    let mut k: usize = 0;
    while k < xs.len()
        invariant
            k <= xs@.len(),
            parts == exprs_parts(xs@),
            parts.len() == xs@.len(),
            frags(out@) == o + join_parts(parts.take(k as int), d@),
        decreases xs@.len() - k,
    {
        proof {
            lemma_join_step(parts, d@, k as int);
        }
        if k > 0 {
            put(out, d);
        }
        render_expr(&xs[k].data, out);
        proof {
            assert(frags(out@) =~= o + join_parts(parts.take(k + 1), d@));
        }
        k = k + 1;
    }
    proof {
        assert(parts.take(xs@.len() as int) =~= parts);
    }
}

/// Renders the nodes with `d` between each two.
pub fn render_list_items_join(xs: &Vec<Node<ListItem>>, d: &str, out: &mut Vec<Frag>)
    ensures
        frags(final(out)@) == frags(old(out)@) + join_parts(list_items_parts(xs@), d@),
    decreases xs@, 0int,
{
    let ghost parts = list_items_parts(xs@);
    let ghost o = frags(out@);
    let mut k: usize = 0;
    while k < xs.len()
        invariant
            k <= xs@.len(),
            parts == list_items_parts(xs@),
            parts.len() == xs@.len(),
            frags(out@) == o + join_parts(parts.take(k as int), d@),
        decreases xs@.len() - k,
    {
        proof {
            lemma_join_step(parts, d@, k as int);
        }
        if k > 0 {
            put(out, d);
        }
        render_list_item(&xs[k].data, out);
        proof {
            assert(frags(out@) =~= o + join_parts(parts.take(k + 1), d@));
        }
        k = k + 1;
    }
    proof {
        assert(parts.take(xs@.len() as int) =~= parts);
    }
}

/// Renders the nodes with `d` between each two.
pub fn render_dict_items_join(xs: &Vec<Node<DictItem>>, d: &str, out: &mut Vec<Frag>)
    ensures
        frags(final(out)@) == frags(old(out)@) + join_parts(dict_items_parts(xs@), d@),
    decreases xs@, 0int,
{
    let ghost parts = dict_items_parts(xs@);
    let ghost o = frags(out@);
    let mut k: usize = 0;
    while k < xs.len()
        invariant
            k <= xs@.len(),
            parts == dict_items_parts(xs@),
            parts.len() == xs@.len(),
            frags(out@) == o + join_parts(parts.take(k as int), d@),
        decreases xs@.len() - k,
    {
        proof {
            lemma_join_step(parts, d@, k as int);
        }
        if k > 0 {
            put(out, d);
        }
        render_dict_item(&xs[k].data, out);
        proof {
            assert(frags(out@) =~= o + join_parts(parts.take(k + 1), d@));
        }
        k = k + 1;
    }
    proof {
        assert(parts.take(xs@.len() as int) =~= parts);
    }
}

/// Renders the nodes with `d` between each two.
pub fn render_comp_iters_join(xs: &Vec<Node<CompIter>>, d: &str, out: &mut Vec<Frag>)
    ensures
        frags(final(out)@) == frags(old(out)@) + join_parts(comp_iters_parts(xs@), d@),
    decreases xs@, 0int,
{
    let ghost parts = comp_iters_parts(xs@);
    let ghost o = frags(out@);
    let mut k: usize = 0;
    while k < xs.len()
        invariant
            k <= xs@.len(),
            parts == comp_iters_parts(xs@),
            parts.len() == xs@.len(),
            frags(out@) == o + join_parts(parts.take(k as int), d@),
        decreases xs@.len() - k,
    {
        proof {
            lemma_join_step(parts, d@, k as int);
        }
        if k > 0 {
            put(out, d);
        }
        render_comp_iter(&xs[k].data, out);
        proof {
            assert(frags(out@) =~= o + join_parts(parts.take(k + 1), d@));
        }
        k = k + 1;
    }
    proof {
        assert(parts.take(xs@.len() as int) =~= parts);
    }
}

/// Renders the nodes with `d` between each two.
pub fn render_arms_join(xs: &Vec<Node<MatchArm>>, d: &str, out: &mut Vec<Frag>)
    ensures
        frags(final(out)@) == frags(old(out)@) + join_parts(arms_parts(xs@), d@),
    decreases xs@, 0int,
{
    let ghost parts = arms_parts(xs@);
    let ghost o = frags(out@);
    let mut k: usize = 0;
    while k < xs.len()
        invariant
            k <= xs@.len(),
            parts == arms_parts(xs@),
            parts.len() == xs@.len(),
            frags(out@) == o + join_parts(parts.take(k as int), d@),
        decreases xs@.len() - k,
    {
        proof {
            lemma_join_step(parts, d@, k as int);
        }
        if k > 0 {
            put(out, d);
        }
        render_arm(&xs[k].data, out);
        proof {
            assert(frags(out@) =~= o + join_parts(parts.take(k + 1), d@));
        }
        k = k + 1;
    }
    proof {
        assert(parts.take(xs@.len() as int) =~= parts);
    }
}

/// Renders the nodes with `d` between each two.
pub fn render_params_join(xs: &Vec<Node<TargetListItem<TargetExpr>>>, d: &str, out: &mut Vec<Frag>)
    ensures
        frags(final(out)@) == frags(old(out)@) + join_parts(params_parts(xs@), d@),
    decreases xs@, 0int,
{
    let ghost parts = params_parts(xs@);
    let ghost o = frags(out@);
    let mut k: usize = 0;
    while k < xs.len()
        invariant
            k <= xs@.len(),
            parts == params_parts(xs@),
            parts.len() == xs@.len(),
            frags(out@) == o + join_parts(parts.take(k as int), d@),
        decreases xs@.len() - k,
    {
        proof {
            lemma_join_step(parts, d@, k as int);
        }
        if k > 0 {
            put(out, d);
        }
        render_tli_e(&xs[k].data, out);
        proof {
            assert(frags(out@) =~= o + join_parts(parts.take(k + 1), d@));
        }
        k = k + 1;
    }
    proof {
        assert(parts.take(xs@.len() as int) =~= parts);
    }
}

impl Render for Atom {
    open spec fn shown(&self) -> Seq<FragV> {
        show_atom(*self)
    }

    fn render_into(&self, out: &mut Vec<Frag>) {
        render_atom(self, out)
    }
}

impl Render for Expr {
    open spec fn shown(&self) -> Seq<FragV> {
        show_expr(*self)
    }

    fn render_into(&self, out: &mut Vec<Frag>) {
        render_expr(self, out)
    }
}

impl Render for Primary {
    open spec fn shown(&self) -> Seq<FragV> {
        show_primary(*self)
    }

    fn render_into(&self, out: &mut Vec<Frag>) {
        render_primary(self, out)
    }
}

impl Render for Op {
    open spec fn shown(&self) -> Seq<FragV> {
        show_op(*self)
    }

    fn render_into(&self, out: &mut Vec<Frag>) {
        render_op(self, out)
    }
}

impl Render for Range {
    open spec fn shown(&self) -> Seq<FragV> {
        show_range(*self)
    }

    fn render_into(&self, out: &mut Vec<Frag>) {
        render_range(self, out)
    }
}

impl Render for Branch {
    open spec fn shown(&self) -> Seq<FragV> {
        show_branch(*self)
    }

    fn render_into(&self, out: &mut Vec<Frag>) {
        render_branch(self, out)
    }
}

impl Render for LoopKind {
    open spec fn shown(&self) -> Seq<FragV> {
        show_loop_kind(*self)
    }

    fn render_into(&self, out: &mut Vec<Frag>) {
        render_loop_kind(self, out)
    }
}

impl Render for Loop {
    open spec fn shown(&self) -> Seq<FragV> {
        show_loop(*self)
    }

    fn render_into(&self, out: &mut Vec<Frag>) {
        render_loop(self, out)
    }
}

impl Render for MatchArm {
    open spec fn shown(&self) -> Seq<FragV> {
        show_arm(*self)
    }

    fn render_into(&self, out: &mut Vec<Frag>) {
        render_arm(self, out)
    }
}

impl Render for CompIter {
    open spec fn shown(&self) -> Seq<FragV> {
        show_comp_iter(*self)
    }

    fn render_into(&self, out: &mut Vec<Frag>) {
        render_comp_iter(self, out)
    }
}

impl Render for ListItem {
    open spec fn shown(&self) -> Seq<FragV> {
        show_list_item(*self)
    }

    fn render_into(&self, out: &mut Vec<Frag>) {
        render_list_item(self, out)
    }
}

impl Render for DictItem {
    open spec fn shown(&self) -> Seq<FragV> {
        show_dict_item(*self)
    }

    fn render_into(&self, out: &mut Vec<Frag>) {
        render_dict_item(self, out)
    }
}

impl Render for DictItemComp {
    open spec fn shown(&self) -> Seq<FragV> {
        show_dict_item_comp(*self)
    }

    fn render_into(&self, out: &mut Vec<Frag>) {
        render_dict_item_comp(self, out)
    }
}

impl Render for Stmt {
    open spec fn shown(&self) -> Seq<FragV> {
        show_stmt(*self)
    }

    fn render_into(&self, out: &mut Vec<Frag>) {
        render_stmt(self, out)
    }
}

impl Render for ExprEnclosure {
    open spec fn shown(&self) -> Seq<FragV> {
        show_enclosure(*self)
    }

    fn render_into(&self, out: &mut Vec<Frag>) {
        render_enclosure(self, out)
    }
}

impl Render for Target {
    open spec fn shown(&self) -> Seq<FragV> {
        show_target(*self)
    }

    fn render_into(&self, out: &mut Vec<Frag>) {
        render_target(self, out)
    }
}

impl Render for TargetExpr {
    open spec fn shown(&self) -> Seq<FragV> {
        show_target_expr(*self)
    }

    fn render_into(&self, out: &mut Vec<Frag>) {
        render_target_expr(self, out)
    }
}

impl Render for Match {
    open spec fn shown(&self) -> Seq<FragV> {
        show_match(*self)
    }

    fn render_into(&self, out: &mut Vec<Frag>) {
        render_match(self, out)
    }
}

impl Render for TargetListItem<Target> {
    open spec fn shown(&self) -> Seq<FragV> {
        show_tli_t(*self)
    }

    fn render_into(&self, out: &mut Vec<Frag>) {
        render_tli_t(self, out)
    }
}

impl Render for TargetDictItem<Target> {
    open spec fn shown(&self) -> Seq<FragV> {
        show_tdi_t(*self)
    }

    fn render_into(&self, out: &mut Vec<Frag>) {
        render_tdi_t(self, out)
    }
}

impl Render for TargetListItem<TargetExpr> {
    open spec fn shown(&self) -> Seq<FragV> {
        show_tli_e(*self)
    }

    fn render_into(&self, out: &mut Vec<Frag>) {
        render_tli_e(self, out)
    }
}

impl Render for TargetDictItem<TargetExpr> {
    open spec fn shown(&self) -> Seq<FragV> {
        show_tdi_e(*self)
    }

    fn render_into(&self, out: &mut Vec<Frag>) {
        render_tdi_e(self, out)
    }
}

impl Render for TargetListItem<Match> {
    open spec fn shown(&self) -> Seq<FragV> {
        show_tli_m(*self)
    }

    fn render_into(&self, out: &mut Vec<Frag>) {
        render_tli_m(self, out)
    }
}

impl Render for TargetDictItem<Match> {
    open spec fn shown(&self) -> Seq<FragV> {
        show_tdi_m(*self)
    }

    fn render_into(&self, out: &mut Vec<Frag>) {
        render_tdi_m(self, out)
    }
}

impl Render for KeyDatum {
    open spec fn shown(&self) -> Seq<FragV> {
        show_key_datum(*self)
    }

    fn render_into(&self, out: &mut Vec<Frag>) {
        render_key_datum(self, out)
    }
}

impl Render for SpreadItem {
    open spec fn shown(&self) -> Seq<FragV> {
        show_spread_item(*self)
    }

    fn render_into(&self, out: &mut Vec<Frag>) {
        render_spread_item(self, out)
    }
}

impl Render for Token {
    open spec fn shown(&self) -> Seq<FragV> {
        show_token(*self)
    }

    fn render_into(&self, out: &mut Vec<Frag>) {
        render_token(self, out)
    }
}

impl Render for ExprTop {
    open spec fn shown(&self) -> Seq<FragV> {
        show_top(*self)
    }

    fn render_into(&self, out: &mut Vec<Frag>) {
        render_top(self, out)
    }
}

impl Render for Args {
    open spec fn shown(&self) -> Seq<FragV> {
        show_args(*self)
    }

    fn render_into(&self, out: &mut Vec<Frag>) {
        render_args(self, out)
    }
}

impl Render for OpEqs {
    open spec fn shown(&self) -> Seq<FragV> {
        show_eqs(*self)
    }

    fn render_into(&self, out: &mut Vec<Frag>) {
        render_eqs(self, out)
    }
}

impl Render for OpArith {
    open spec fn shown(&self) -> Seq<FragV> {
        show_arith(*self)
    }

    fn render_into(&self, out: &mut Vec<Frag>) {
        render_arith(self, out)
    }
}

impl Render for OpRange {
    open spec fn shown(&self) -> Seq<FragV> {
        show_range_op(*self)
    }

    fn render_into(&self, out: &mut Vec<Frag>) {
        render_range_op(self, out)
    }
}

} // verus!
