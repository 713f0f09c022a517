use vstd::prelude::*;

use crate::bytes::copy_bytes_range;
use crate::error::Error;
use vstd::string::StrSliceExecFns;
use vstd::utf8::encode_utf8;

verus! {

/// One SQL expression fragment, kept as the UTF-8 bytes of its text.
pub struct ExprNode {
    pub text: Vec<u8>,
}

/// A comma-separated list of SQL expressions, kept as raw text until a
/// statement is built, when it is split at its top-level commas.
pub struct ExprList {
    pub text: Vec<u8>,
}

/// The projected select items of a statement, kept as raw text.
pub struct SelectItemList {
    pub text: Vec<u8>,
}

impl ExprNode {
    /// An expression node holding the given SQL text.
    pub fn from_text(text: &str) -> (r: Self)
        ensures
            r.text@ == encode_utf8(text@),
    {
        ExprNode { text: text.as_bytes_vec() }
    }

    /// The `IS NULL` test of this expression.
    pub fn is_null(self) -> (r: Self)
        ensures
            r.text@ == self.text@ + is_null_suffix(),
    {
        let mut text = self.text;
        text.push(32u8);
        text.push(73u8);
        text.push(83u8);
        text.push(32u8);
        text.push(78u8);
        text.push(85u8);
        text.push(76u8);
        text.push(76u8);
        proof {
            assert(text@ =~= self.text@ + is_null_suffix());
        }
        ExprNode { text }
    }
}

/// The ASCII bytes of `" IS NULL"`.
pub open spec fn is_null_suffix() -> Seq<u8> {
    seq![32u8, 73u8, 83u8, 32u8, 78u8, 85u8, 76u8, 76u8]
}

/// A column reference.
pub fn col(name: &str) -> (r: ExprNode)
    ensures
        r.text@ == encode_utf8(name@),
{
    ExprNode::from_text(name)
}

impl ExprList {
    /// An expression list holding the given comma-separated SQL text.
    pub fn from_text(text: &str) -> (r: Self)
        ensures
            r.text@ == encode_utf8(text@),
    {
        ExprList { text: text.as_bytes_vec() }
    }
}

impl SelectItemList {
    /// A projection list holding the given comma-separated SQL text.
    pub fn from_text(text: &str) -> (r: Self)
        ensures
            r.text@ == encode_utf8(text@),
    {
        SelectItemList { text: text.as_bytes_vec() }
    }
}

/// Splits `s` behind `i`, having last seen a segment start at `start`, with
/// `depth` open parentheses: the remaining segments, cut at every top-level
/// comma.
pub open spec fn split_from(s: Seq<u8>, start: int, i: int, depth: int) -> Seq<Seq<u8>>
    decreases s.len() - i,
{
    if i < 0 || i >= s.len() {
        seq![s.subrange(start, s.len() as int)]
    } else if s[i] == 44 && depth == 0 {
        seq![s.subrange(start, i)] + split_from(s, i + 1, i + 1, 0)
    } else if s[i] == 40 {
        split_from(s, start, i + 1, depth + 1)
    } else if s[i] == 41 {
        split_from(s, start, i + 1, depth - 1)
    } else {
        split_from(s, start, i + 1, depth)
    }
}

/// The segments of a comma-separated expression list: cut at every comma
/// that stands outside parentheses; empty text has no segments.
pub open spec fn split_exprs(s: Seq<u8>) -> Seq<Seq<u8>> {
    if s.len() == 0 {
        Seq::empty()
    } else {
        split_from(s, 0, 0, 0)
    }
}

proof fn lemma_deep_view_push(v: Vec<Vec<u8>>, w: Vec<Vec<u8>>, x: Vec<u8>)
    requires
        w@ == v@.push(x),
    ensures
        w.deep_view() == v.deep_view().push(x@),
{
    assert forall|i: int| 0 <= i < x@.len() implies x.deep_view()[i] == x@[i] by {
        assert(x.deep_view()[i] == x@[i].deep_view());
    }
    assert(x.deep_view() =~= x@);
    assert forall|k: int| 0 <= k < w@.len() implies w.deep_view()[k] == v.deep_view().push(x@)[k] by {
        assert(w.deep_view()[k] == w@[k].deep_view());
        if k < v@.len() {
            assert(w@[k] == v@[k]);
            assert(v.deep_view()[k] == v@[k].deep_view());
        } else {
            assert(w@[k] == x);
        }
    }
    assert(w.deep_view() =~= v.deep_view().push(x@));
}

/// Splits an expression list's text at its top-level commas.
pub fn split_expr_list(text: &Vec<u8>) -> (r: Vec<Vec<u8>>)
    ensures
        r.deep_view() == split_exprs(text@),
{
    let n = text.len();
    let mut out: Vec<Vec<u8>> = Vec::new();
    if n == 0 {
        proof {
            assert(out.deep_view() =~= split_exprs(text@));
        }
        return out;
    }
    let mut start: usize = 0;
    let mut i: usize = 0;
    let mut depth: i128 = 0;
    proof {
        assert(out.deep_view() + split_from(text@, 0, 0, 0) =~= split_from(text@, 0, 0, 0));
    }
    while i < n
        invariant
            0 <= start <= i <= n,
            n == text@.len(),
            n >= 1,
            -(i as int) <= depth as int <= i as int,
            split_exprs(text@) == out.deep_view() + split_from(
                text@,
                start as int,
                i as int,
                depth as int,
            ),
        decreases n - i,
    {
        let c = text[i];
        if c == 44u8 && depth == 0 {
            let seg = copy_bytes_range(text, start, i);
            let ghost pre = out.deep_view();
            let ghost pre_vec = out;
            let ghost rest = split_from(text@, i as int + 1, i as int + 1, 0);
            out.push(seg);
            proof {
                lemma_deep_view_push(pre_vec, out, seg);
                assert(out.deep_view() == pre.push(text@.subrange(start as int, i as int)));
                assert(pre.push(text@.subrange(start as int, i as int)) =~= pre + seq![
                    text@.subrange(start as int, i as int),
                ]);
                assert((pre + seq![text@.subrange(start as int, i as int)]) + rest =~= pre + (seq![
                    text@.subrange(start as int, i as int),
                ] + rest));
            }
            start = i + 1;
            i = i + 1;
        } else if c == 40u8 {
            depth = depth + 1;
            i = i + 1;
        } else if c == 41u8 {
            depth = depth - 1;
            i = i + 1;
        } else {
            i = i + 1;
        }
    }
    let seg = copy_bytes_range(text, start, n);
    let ghost pre = out.deep_view();
    let ghost pre_vec = out;
    out.push(seg);
    proof {
        lemma_deep_view_push(pre_vec, out, seg);
        assert(out.deep_view() == pre.push(text@.subrange(start as int, n as int)));
        assert(pre.push(text@.subrange(start as int, n as int)) =~= pre + seq![
            text@.subrange(start as int, n as int),
        ]);
    }
    out
}

/// What a built statement holds: the source table and the optional clauses,
/// each as expression text.
pub struct NodeData {
    pub table_name: Vec<u8>,
    pub projection: Option<Vec<u8>>,
    pub selection: Option<Vec<u8>>,
    pub group_by: Vec<Vec<u8>>,
    pub having: Option<Vec<u8>>,
    pub offset: Option<Vec<u8>>,
    pub limit: Option<Vec<u8>>,
}

/// A built SQL statement.
pub enum Statement {
    Select(NodeData),
}

/// A table to build a statement against.
pub struct TableNode {
    pub table_name: Vec<u8>,
}

/// A table to select from.
pub fn table(table_name: &str) -> (r: TableNode)
    ensures
        r.table_name@ == encode_utf8(table_name@),
{
    TableNode { table_name: table_name.as_bytes_vec() }
}

/// A `SELECT` under construction: its table, and its filter once one is set.
pub struct SelectNode {
    pub table_name: Vec<u8>,
    pub filter: Option<ExprNode>,
}

impl TableNode {
    /// Starts a `SELECT *` over this table.
    pub fn select(self) -> (r: SelectNode)
        ensures
            r.table_name@ == self.table_name@,
            r.filter is None,
    {
        SelectNode { table_name: self.table_name, filter: None }
    }
}

impl SelectNode {
    /// Sets the statement's `WHERE` clause.
    pub fn filter(self, expr: ExprNode) -> (r: Self)
        ensures
            r.table_name@ == self.table_name@,
            r.filter matches Some(e) && e.text@ == expr.text@,
    {
        SelectNode { table_name: self.table_name, filter: Some(expr) }
    }

    /// Adds a `GROUP BY` over the given comma-separated expression list.
    pub fn group_by(self, exprs: &str) -> (r: GroupByNode)
        ensures
            r.prev_node == PrevNode::Select(self),
            r.expr_list.text@ == encode_utf8(exprs@),
    {
        GroupByNode::new(PrevNode::from(self), ExprList::from_text(exprs))
    }
}

/// The node a `GROUP BY` can follow.
pub enum PrevNode {
    Select(SelectNode),
}

impl From<SelectNode> for PrevNode {
    fn from(node: SelectNode) -> Self {
        PrevNode::Select(node)
    }
}

impl vstd::std_specs::convert::FromSpecImpl<SelectNode> for PrevNode {
    open spec fn obeys_from_spec() -> bool {
        true
    }

    open spec fn from_spec(node: SelectNode) -> Self {
        PrevNode::Select(node)
    }
}

/// The select node a previous-node stands for.
pub open spec fn prev_select(p: PrevNode) -> SelectNode {
    match p {
        PrevNode::Select(s) => s,
    }
}

impl PrevNode {
    /// The statement data accumulated so far.
    pub fn prebuild(self) -> (r: NodeData)
        ensures
            r.table_name@ == prev_select(self).table_name@,
            (match prev_select(self).filter {
                Some(e) => r.selection matches Some(s) && s@ == e.text@,
                None => r.selection is None,
            }),
            r.projection is None,
            r.group_by@.len() == 0,
            r.having is None,
            r.offset is None,
            r.limit is None,
    {
        match self {
            PrevNode::Select(node) => NodeData {
                table_name: node.table_name,
                projection: None,
                selection: match node.filter {
                    Some(e) => Some(e.text),
                    None => None,
                },
                group_by: Vec::new(),
                having: None,
                offset: None,
                limit: None,
            },
        }
    }
}

/// A `GROUP BY` under construction.
pub struct GroupByNode {
    pub prev_node: PrevNode,
    pub expr_list: ExprList,
}

impl GroupByNode {
    /// A `GROUP BY` of `expr_list` behind `prev_node`.
    pub fn new(prev_node: PrevNode, expr_list: ExprList) -> (r: Self)
        ensures
            r.prev_node == prev_node,
            r.expr_list == expr_list,
    {
        GroupByNode { prev_node, expr_list }
    }

    /// Adds a `HAVING` clause.
    pub fn having(self, expr: ExprNode) -> (r: HavingNode)
        ensures
            r.prev_node == self,
            r.expr == expr,
    {
        HavingNode::new(self, expr)
    }

    /// Adds an `OFFSET` clause.
    pub fn offset(self, expr: ExprNode) -> (r: OffsetNode)
        ensures
            r.prev_node == self,
            r.expr == expr,
    {
        OffsetNode::new(self, expr)
    }

    /// Adds a `LIMIT` clause.
    pub fn limit(self, expr: ExprNode) -> (r: LimitNode)
        ensures
            r.prev_node == self,
            r.expr == expr,
    {
        LimitNode::new(self, expr)
    }

    /// Replaces the `SELECT *` projection with the given select items.
    pub fn project(self, select_items: SelectItemList) -> (r: ProjectNode)
        ensures
            r.prev_node == self,
            r.select_items == select_items,
    {
        ProjectNode::new(self, select_items)
    }

    /// The statement data accumulated so far: the previous node's data with
    /// this node's expression list split at its top-level commas.
    pub fn prebuild(self) -> (r: NodeData)
        ensures
            r.table_name@ == prev_select(self.prev_node).table_name@,
            (match prev_select(self.prev_node).filter {
                Some(e) => r.selection matches Some(s) && s@ == e.text@,
                None => r.selection is None,
            }),
            r.group_by.deep_view() == split_exprs(self.expr_list.text@),
            r.projection is None,
            r.having is None,
            r.offset is None,
            r.limit is None,
    {
        let group_by = split_expr_list(&self.expr_list.text);
        let mut data = self.prev_node.prebuild();
        data.group_by = group_by;
        data
    }

    /// Builds the statement.
    pub fn build(self) -> (r: Result<Statement, Error>)
        ensures
            r matches Ok(st) && (match st {
                Statement::Select(d) => {
                    &&& d.table_name@ == prev_select(self.prev_node).table_name@
                    &&& (match prev_select(self.prev_node).filter {
                        Some(e) => d.selection matches Some(s) && s@ == e.text@,
                        None => d.selection is None,
                    })
                    &&& d.group_by.deep_view() == split_exprs(self.expr_list.text@)
                    &&& d.projection is None
                    &&& d.having is None
                    &&& d.offset is None
                    &&& d.limit is None
                },
            }),
    {
        Ok(Statement::Select(self.prebuild()))
    }
}

/// A `HAVING` under construction.
pub struct HavingNode {
    pub prev_node: GroupByNode,
    pub expr: ExprNode,
}

impl HavingNode {
    /// A `HAVING` of `expr` behind `prev_node`.
    pub fn new(prev_node: GroupByNode, expr: ExprNode) -> (r: Self)
        ensures
            r.prev_node == prev_node,
            r.expr == expr,
    {
        HavingNode { prev_node, expr }
    }

    /// Builds the statement: the previous node's data with only the
    /// `HAVING` clause set.
    pub fn build(self) -> (r: Result<Statement, Error>)
        ensures
            r matches Ok(st) && (match st {
                Statement::Select(d) => {
                    &&& d.table_name@ == prev_select(self.prev_node.prev_node).table_name@
                    &&& (match prev_select(self.prev_node.prev_node).filter {
                        Some(e) => d.selection matches Some(s) && s@ == e.text@,
                        None => d.selection is None,
                    })
                    &&& d.group_by.deep_view() == split_exprs(self.prev_node.expr_list.text@)
                    &&& d.projection is None
                    &&& (d.having matches Some(h) && h@ == self.expr.text@)
                    &&& d.offset is None
                    &&& d.limit is None
                },
            }),
    {
        let mut data = self.prev_node.prebuild();
        data.having = Some(self.expr.text);
        Ok(Statement::Select(data))
    }
}

/// An `OFFSET` under construction.
pub struct OffsetNode {
    pub prev_node: GroupByNode,
    pub expr: ExprNode,
}

impl OffsetNode {
    /// An `OFFSET` of `expr` behind `prev_node`.
    pub fn new(prev_node: GroupByNode, expr: ExprNode) -> (r: Self)
        ensures
            r.prev_node == prev_node,
            r.expr == expr,
    {
        OffsetNode { prev_node, expr }
    }

    /// Builds the statement: the previous node's data with only the
    /// `OFFSET` clause set.
    pub fn build(self) -> (r: Result<Statement, Error>)
        ensures
            r matches Ok(st) && (match st {
                Statement::Select(d) => {
                    &&& d.table_name@ == prev_select(self.prev_node.prev_node).table_name@
                    &&& (match prev_select(self.prev_node.prev_node).filter {
                        Some(e) => d.selection matches Some(s) && s@ == e.text@,
                        None => d.selection is None,
                    })
                    &&& d.group_by.deep_view() == split_exprs(self.prev_node.expr_list.text@)
                    &&& d.projection is None
                    &&& d.having is None
                    &&& (d.offset matches Some(o) && o@ == self.expr.text@)
                    &&& d.limit is None
                },
            }),
    {
        let mut data = self.prev_node.prebuild();
        data.offset = Some(self.expr.text);
        Ok(Statement::Select(data))
    }
}

/// A `LIMIT` under construction.
pub struct LimitNode {
    pub prev_node: GroupByNode,
    pub expr: ExprNode,
}

impl LimitNode {
    /// A `LIMIT` of `expr` behind `prev_node`.
    pub fn new(prev_node: GroupByNode, expr: ExprNode) -> (r: Self)
        ensures
            r.prev_node == prev_node,
            r.expr == expr,
    {
        LimitNode { prev_node, expr }
    }

    /// Builds the statement: the previous node's data with only the
    /// `LIMIT` clause set.
    pub fn build(self) -> (r: Result<Statement, Error>)
        ensures
            r matches Ok(st) && (match st {
                Statement::Select(d) => {
                    &&& d.table_name@ == prev_select(self.prev_node.prev_node).table_name@
                    &&& (match prev_select(self.prev_node.prev_node).filter {
                        Some(e) => d.selection matches Some(s) && s@ == e.text@,
                        None => d.selection is None,
                    })
                    &&& d.group_by.deep_view() == split_exprs(self.prev_node.expr_list.text@)
                    &&& d.projection is None
                    &&& d.having is None
                    &&& d.offset is None
                    &&& (d.limit matches Some(x) && x@ == self.expr.text@)
                },
            }),
    {
        let mut data = self.prev_node.prebuild();
        data.limit = Some(self.expr.text);
        Ok(Statement::Select(data))
    }
}

/// A projection under construction.
pub struct ProjectNode {
    pub prev_node: GroupByNode,
    pub select_items: SelectItemList,
}

impl ProjectNode {
    /// A projection of `select_items` behind `prev_node`.
    pub fn new(prev_node: GroupByNode, select_items: SelectItemList) -> (r: Self)
        ensures
            r.prev_node == prev_node,
            r.select_items == select_items,
    {
        ProjectNode { prev_node, select_items }
    }

    /// Builds the statement: the previous node's data with only the
    /// projection replaced by the select items.
    pub fn build(self) -> (r: Result<Statement, Error>)
        ensures
            r matches Ok(st) && (match st {
                Statement::Select(d) => {
                    &&& d.table_name@ == prev_select(self.prev_node.prev_node).table_name@
                    &&& (match prev_select(self.prev_node.prev_node).filter {
                        Some(e) => d.selection matches Some(s) && s@ == e.text@,
                        None => d.selection is None,
                    })
                    &&& d.group_by.deep_view() == split_exprs(self.prev_node.expr_list.text@)
                    &&& (d.projection matches Some(p) && p@ == self.select_items.text@)
                    &&& d.having is None
                    &&& d.offset is None
                    &&& d.limit is None
                },
            }),
    {
        let mut data = self.prev_node.prebuild();
        data.projection = Some(self.select_items.text);
        Ok(Statement::Select(data))
    }
}

} // verus!
