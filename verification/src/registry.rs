//! The registry of top-level continuations.

use vstd::prelude::*;
use vstd::string::*;
use crate::ast::{Expr, ExprView, expr_view, exprs_view};
use crate::scope::{bind, distinct_names, first_index, lemma_bind, lemma_first_index, lookup};
use crate::semantics::RootView;
use crate::value::{ContView, Continuation, NativeOp, clone_cont, cont_view};

verus! {

/// The top-level continuations by name: the definitions of the syntax tree
/// and the built-in operations registered over them.
#[derive(Debug)]
pub struct RootScope<'a> {
    pub entries: Vec<(String, Continuation<'a>)>,
}

/// The models of a list of registered continuations.
pub open spec fn registry_view(entries: Seq<(String, Continuation<'_>)>) -> RootView {
    Seq::new(entries.len(), |i: int| (entries[i].0@, cont_view(entries[i].1)))
}

impl<'a> View for RootScope<'a> {
    type V = RootView;

    open spec fn view(&self) -> RootView {
        registry_view(self.entries@)
    }
}

/// The registry of a syntax tree: each top-level definition under its name,
/// a later one in place of an earlier one of the same name. Nodes other than
/// definitions add nothing.
pub open spec fn registry_of(exprs: Seq<ExprView>) -> RootView
    decreases exprs.len(),
{
    if exprs.len() == 0 {
        Seq::empty()
    } else {
        let rest = registry_of(exprs.drop_last());
        match exprs.last() {
            ExprView::DefCont { name, params, body } => bind(
                rest,
                name,
                ContView::Function { params, body },
            ),
            _ => rest,
        }
    }
}

/// The registry after the built-in operations have been registered under
/// their names: `println`, `add`, `sub`, `mul`, `rem`, `eq` and `and`.
pub open spec fn with_natives(root: RootView) -> RootView {
    let root = bind(root, "println"@, ContView::Native(NativeOp::Println));
    let root = bind(root, "add"@, ContView::Native(NativeOp::Add));
    let root = bind(root, "sub"@, ContView::Native(NativeOp::Sub));
    let root = bind(root, "mul"@, ContView::Native(NativeOp::Mul));
    let root = bind(root, "rem"@, ContView::Native(NativeOp::Rem));
    let root = bind(root, "eq"@, ContView::Native(NativeOp::Eq));
    bind(root, "and"@, ContView::Native(NativeOp::And))
}

impl<'a> RootScope<'a> {
    /// The registry of the top-level definitions among `exprs`.
    pub fn new(exprs: &'a [Expr]) -> (r: Self)
        ensures
            r@ == registry_of(exprs_view(exprs@)),
            distinct_names(r@),
    {
        let mut root = RootScope { entries: Vec::new() };
        let ghost all = exprs_view(exprs@);
        assert(root@ =~= registry_of(all.take(0)));
        let mut i: usize = 0;
        while i < exprs.len()
            invariant
                i <= exprs.len(),
                all == exprs_view(exprs@),
                distinct_names(root@),
                root@ == registry_of(all.take(i as int)),
            decreases exprs.len() - i,
        {
            proof {
                assert(all.take(i + 1).drop_last() =~= all.take(i as int));
                assert(all.take(i + 1).last() == expr_view(exprs@[i as int]));
            }
            match &exprs[i] {
                Expr::DefCont { name, params, body } => {
                    let cont = Continuation::Function {
                        params: params.as_slice(),
                        body: body.as_slice(),
                    };
                    root.put(name.clone(), cont);
                },
                _ => {},
            }
            i += 1;
        }
        assert(all.take(exprs.len() as int) =~= all);
        root
    }

    /// The position of the entry for `name`, if there is one.
    fn position(&self, name: &String) -> (r: Option<usize>)
        ensures
            match r {
                Some(i) => first_index(self@, name@, 0) == Some(i as int),
                None => first_index(self@, name@, 0) is None,
            },
    {
        let mut i: usize = 0;
        while i < self.entries.len()
            invariant
                i <= self.entries.len(),
                self@.len() == self.entries.len(),
                first_index(self@, name@, 0) == first_index(self@, name@, i as int),
            decreases self.entries.len() - i,
        {
            if self.entries[i].0 == *name {
                return Some(i);
            }
            i += 1;
        }
        None
    }

    /// Registers `cont` under `name`, in place of what the name held.
    fn put(&mut self, name: String, cont: Continuation<'a>)
        ensures
            final(self)@ == bind(old(self)@, name@, cont@),
            distinct_names(old(self)@) ==> distinct_names(final(self)@),
    {
        let ghost before = self@;
        proof {
            lemma_bind(self@, name@, cont@, name@);
        }
        match self.position(&name) {
            Some(i) => {
                proof {
                    lemma_first_index(self@, name@, 0);
                }
                self.entries.set(i, (name, cont));
                assert(self@ =~= before.update(i as int, (name@, cont@)));
            },
            None => {
                self.entries.push((name, cont));
                assert(self@ =~= before.push((name@, cont@)));
            },
        }
    }

    /// A copy of the continuation registered under `name`, if there is one.
    pub fn get(&self, name: &str) -> (r: Option<Continuation<'a>>)
        ensures
            match r {
                Some(c) => lookup(self@, name@) == Some(c@),
                None => lookup(self@, name@) is None,
            },
    {
        let key = String::from_str(name);
        self.find(&key)
    }

    /// A copy of the continuation registered under `name`, if there is one.
    pub fn find(&self, name: &String) -> (r: Option<Continuation<'a>>)
        ensures
            match r {
                Some(c) => lookup(self@, name@) == Some(c@),
                None => lookup(self@, name@) is None,
            },
    {
        match self.position(name) {
            Some(i) => {
                proof {
                    lemma_first_index(self@, name@, 0);
                }
                Some(clone_cont(&self.entries[i].1))
            },
            None => None,
        }
    }

    /// Registers the built-in operation `op` under `name`, in place of what
    /// the name held.
    pub fn add_native(&mut self, name: &str, op: NativeOp)
        ensures
            final(self)@ == bind(old(self)@, name@, ContView::Native(op)),
            distinct_names(old(self)@) ==> distinct_names(final(self)@),
    {
        self.put(String::from_str(name), Continuation::Native(op));
    }

    /// Registers every built-in operation under its name, in place of a
    /// definition of that name.
    pub fn add_natives(&mut self)
        ensures
            final(self)@ == with_natives(old(self)@),
            distinct_names(old(self)@) ==> distinct_names(final(self)@),
    {
        self.add_native("println", NativeOp::Println);
        self.add_native("add", NativeOp::Add);
        self.add_native("sub", NativeOp::Sub);
        self.add_native("mul", NativeOp::Mul);
        self.add_native("rem", NativeOp::Rem);
        self.add_native("eq", NativeOp::Eq);
        self.add_native("and", NativeOp::And);
    }
}

} // verus!
