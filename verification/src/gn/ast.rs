use vstd::prelude::*;

verus! {

broadcast use vstd::std_specs::vec::group_vec_axioms;

/// The mathematical model of a syntax tree: strings are sequences of
/// characters and lists are sequences of trees.
pub enum GnAst {
    Identifier(Seq<char>),
    StringLiteral(Seq<char>),
    IntegerLiteral(i64),
    Call { name: Seq<char>, params: Box<GnAst>, block: Option<Box<GnAst>> },
    ArrayAccess { identifier: Seq<char>, expression: Box<GnAst> },
    ScopeAccess { scope: Seq<char>, name: Seq<char> },
    UnaryExpr(Seq<char>, Box<GnAst>),
    BinaryExpr(Box<GnAst>, Seq<char>, Box<GnAst>),
    ExpressionList(Seq<GnAst>),
    Assignment(Box<GnAst>, Seq<char>, Box<GnAst>),
}

impl GnAst {
    /// The three forms that may stand on the left of an assignment.
    pub open spec fn is_addressable(self) -> bool {
        self is Identifier || self is ArrayAccess || self is ScopeAccess
    }

    /// The invariant of a tree: the left side of every assignment is
    /// addressable, and the arguments and the body of every call are lists.
    pub open spec fn well_formed(self) -> bool
        decreases self,
    {
        match self {
            GnAst::Identifier(_) => true,
            GnAst::StringLiteral(_) => true,
            GnAst::IntegerLiteral(_) => true,
            GnAst::Call { name, params, block } => {
                &&& *params is ExpressionList
                &&& params.well_formed()
                &&& match block {
                    Some(b) => *b is ExpressionList && b.well_formed(),
                    None => true,
                }
            },
            GnAst::ArrayAccess { identifier, expression } => expression.well_formed(),
            GnAst::ScopeAccess { .. } => true,
            GnAst::UnaryExpr(_, operand) => operand.well_formed(),
            GnAst::BinaryExpr(left, _, right) => left.well_formed() && right.well_formed(),
            GnAst::ExpressionList(elements) => forall|i: int|
                0 <= i < elements.len() ==> (#[trigger] elements[i]).well_formed(),
            GnAst::Assignment(lvalue, _, rvalue) => {
                &&& lvalue.is_addressable()
                &&& lvalue.well_formed()
                &&& rvalue.well_formed()
            },
        }
    }
}

/// `scope.name`
#[derive(Debug, PartialEq, Eq)]
pub struct GnScopeAccess {
    pub scope: String,
    pub name: String,
}

/// `identifier[expression]`
#[derive(Debug, PartialEq, Eq)]
pub struct GnArrayAccess {
    pub identifier: String,
    pub expression: Box<GnExpr>,
}

/// `name(params) { block }`, the block being optional. `params` and `block`
/// are expression lists.
#[derive(Debug, PartialEq, Eq)]
pub struct GnCall {
    pub name: String,
    pub params: Box<GnExpr>,
    pub block: Option<Box<GnExpr>>,
}

/// A node of the syntax tree. Every node owns its children.
#[derive(Debug, PartialEq, Eq)]
pub enum GnExpr {
    Identifier(String),
    IntegerLiteral(i64),
    StringLiteral(String),
    Call(GnCall),
    ArrayAccess(GnArrayAccess),
    ScopeAccess(GnScopeAccess),
    UnaryExpr(String, Box<GnExpr>),
    BinaryExpr(Box<GnExpr>, String, Box<GnExpr>),
    ExpressionList(Vec<GnExpr>),
    Assignment(Box<GnExpr>, String, Box<GnExpr>),
}

/// The models of the trees of a list, in order.
pub open spec fn list_model(list: Seq<GnExpr>) -> Seq<GnAst> {
    Seq::new(list.len(), |i: int| list[i].model())
}

impl GnScopeAccess {
    pub open spec fn model(self) -> GnAst {
        GnAst::ScopeAccess { scope: self.scope@, name: self.name@ }
    }
}

impl GnArrayAccess {
    pub open spec fn model(self) -> GnAst {
        GnAst::ArrayAccess {
            identifier: self.identifier@,
            expression: Box::new(self.expression.model()),
        }
    }
}

impl GnCall {
    pub open spec fn model(self) -> GnAst {
        GnAst::Call {
            name: self.name@,
            params: Box::new(self.params.model()),
            block: match self.block {
                Some(b) => Some(Box::new(b.model())),
                None => None,
            },
        }
    }
}

impl GnExpr {
    /// What this tree stands for.
    pub open spec fn model(self) -> GnAst
        decreases self,
    {
        match self {
            GnExpr::Identifier(name) => GnAst::Identifier(name@),
            GnExpr::IntegerLiteral(value) => GnAst::IntegerLiteral(value),
            GnExpr::StringLiteral(value) => GnAst::StringLiteral(value@),
            GnExpr::Call(call) => GnAst::Call {
                name: call.name@,
                params: Box::new(call.params.model()),
                block: match call.block {
                    Some(b) => Some(Box::new(b.model())),
                    None => None,
                },
            },
            GnExpr::ArrayAccess(access) => GnAst::ArrayAccess {
                identifier: access.identifier@,
                expression: Box::new(access.expression.model()),
            },
            GnExpr::ScopeAccess(access) => GnAst::ScopeAccess {
                scope: access.scope@,
                name: access.name@,
            },
            GnExpr::UnaryExpr(op, operand) => GnAst::UnaryExpr(op@, Box::new(operand.model())),
            GnExpr::BinaryExpr(left, op, right) => GnAst::BinaryExpr(
                Box::new(left.model()),
                op@,
                Box::new(right.model()),
            ),
            GnExpr::ExpressionList(elements) => GnAst::ExpressionList(
                Seq::new(
                    elements@.len(),
                    |i: int|
                        if 0 <= i < elements@.len() {
                            elements@[i].model()
                        } else {
                            GnAst::ExpressionList(Seq::empty())
                        },
                ),
            ),
            GnExpr::Assignment(lvalue, op, rvalue) => GnAst::Assignment(
                Box::new(lvalue.model()),
                op@,
                Box::new(rvalue.model()),
            ),
        }
    }

    /// The model of a list node is the list of its elements' models.
    pub proof fn lemma_list_model(elements: Vec<GnExpr>)
        ensures
            GnExpr::ExpressionList(elements).model() == GnAst::ExpressionList(
                list_model(elements@),
            ),
    {
        assert(GnExpr::ExpressionList(elements).model()->ExpressionList_0 =~= list_model(
            elements@,
        ));
    }

    /// A bare name.
    pub fn new_identifier_from_string(identifier: String) -> (r: GnExpr)
        ensures
            r.model() == GnAst::Identifier(identifier@),
    {
        GnExpr::Identifier(identifier)
    }

    /// An expression in parentheses is the expression itself.
    pub fn new_expression(expression: GnExpr) -> (r: GnExpr)
        ensures
            r == expression,
    {
        expression
    }

    /// An integer literal.
    pub fn new_integer(value: i64) -> (r: GnExpr)
        ensures
            r.model() == GnAst::IntegerLiteral(value),
    {
        GnExpr::IntegerLiteral(value)
    }

    /// A string literal with the content `value`.
    pub fn new_string(value: String) -> (r: GnExpr)
        ensures
            r.model() == GnAst::StringLiteral(value@),
    {
        GnExpr::StringLiteral(value)
    }

    /// A string literal with the content `value`.
    pub fn new_string_from_str(value: &str) -> (r: GnExpr)
        ensures
            r.model() == GnAst::StringLiteral(value@),
    {
        GnExpr::StringLiteral(value.to_owned())
    }

    /// A call as an expression.
    pub fn new_call(value: GnCall) -> (r: GnExpr)
        ensures
            r.model() == value.model(),
    {
        GnExpr::Call(value)
    }

    /// An array access as an expression.
    pub fn new_array_access(value: GnArrayAccess) -> (r: GnExpr)
        ensures
            r.model() == value.model(),
    {
        GnExpr::ArrayAccess(value)
    }

    /// A scope access as an expression.
    pub fn new_scope_access(value: GnScopeAccess) -> (r: GnExpr)
        ensures
            r.model() == value.model(),
    {
        GnExpr::ScopeAccess(value)
    }

    /// A bracketed list is the list itself.
    pub fn new_expression_list(expression_list: GnExpr) -> (r: GnExpr)
        ensures
            r == expression_list,
    {
        expression_list
    }

    /// A list of the given expressions, in their order.
    pub fn new_expression_list_from_vec(expression_list: Vec<GnExpr>) -> (r: GnExpr)
        ensures
            r.model() == GnAst::ExpressionList(list_model(expression_list@)),
            (forall|i: int|
                0 <= i < expression_list@.len() ==> (#[trigger] expression_list@[i]).model().well_formed())
                ==> r.model().well_formed(),
    {
        proof {
            Self::lemma_list_model(expression_list);
        }
        GnExpr::ExpressionList(expression_list)
    }

    /// The prefix operator `op` applied to `expr`.
    pub fn new_unary_expression(op: &str, expr: GnExpr) -> (r: GnExpr)
        ensures
            r.model() == GnAst::UnaryExpr(op@, Box::new(expr.model())),
            expr.model().well_formed() ==> r.model().well_formed(),
    {
        GnExpr::UnaryExpr(op.to_owned(), Box::new(expr))
    }

    /// The operator `op` between `l_expr` and `r_expr`.
    pub fn new_binary_expression(l_expr: GnExpr, op: &str, r_expr: GnExpr) -> (r: GnExpr)
        ensures
            r.model() == GnAst::BinaryExpr(Box::new(l_expr.model()), op@, Box::new(r_expr.model())),
            l_expr.model().well_formed() && r_expr.model().well_formed() ==> r.model().well_formed(),
    {
        GnExpr::BinaryExpr(Box::new(l_expr), op.to_owned(), Box::new(r_expr))
    }

    /// Builds an assignment. The left side must be one of the addressable
    /// forms: no other tree is a valid assignment.
    pub fn new_assignment(lval: GnExpr, op: &str, expr: GnExpr) -> (r: GnExpr)
        requires
            lval.model().is_addressable(),
        ensures
            r.model() == GnAst::Assignment(Box::new(lval.model()), op@, Box::new(expr.model())),
            lval.model().well_formed() && expr.model().well_formed() ==> r.model().well_formed(),
    {
        GnExpr::Assignment(Box::new(lval), op.to_owned(), Box::new(expr))
    }

    /// A list of the given statements, in their order.
    pub fn new_statement_list(statement_list: Vec<GnExpr>) -> (r: GnExpr)
        ensures
            r.model() == GnAst::ExpressionList(list_model(statement_list@)),
            (forall|i: int|
                0 <= i < statement_list@.len() ==> (#[trigger] statement_list@[i]).model().well_formed())
                ==> r.model().well_formed(),
    {
        GnExpr::new_expression_list_from_vec(statement_list)
    }
}

impl View for GnScopeAccess {
    type V = GnAst;

    open spec fn view(&self) -> GnAst {
        self.model()
    }
}

impl View for GnArrayAccess {
    type V = GnAst;

    open spec fn view(&self) -> GnAst {
        self.model()
    }
}

impl View for GnCall {
    type V = GnAst;

    open spec fn view(&self) -> GnAst {
        self.model()
    }
}

impl View for GnExpr {
    type V = GnAst;

    open spec fn view(&self) -> GnAst {
        self.model()
    }
}

} // verus!
