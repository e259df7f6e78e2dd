//! The generic parenthesized-expression tree: atoms and nested lists.

use vstd::prelude::*;

verus! {

/// A parsed expression: either a bare text token or a parenthesized list
/// of sub-expressions.  Immutable once parsed.
#[derive(Debug)]
pub enum SExpr {
    Atom(String),
    List(Vec<SExpr>),
}

/// The mathematical shape of an expression tree: atoms carry their
/// character sequence, lists carry the models of their children.
pub enum SExprModel {
    Atom(Seq<char>),
    List(Seq<SExprModel>),
}

/// The abstract trees of a sequence of expressions, in order.
pub open spec fn models_of(s: Seq<SExpr>) -> Seq<SExprModel>
    decreases s,
{
    if s.len() == 0 {
        Seq::empty()
    } else {
        seq![s[0].model()] + models_of(s.subrange(1, s.len() as int))
    }
}

pub broadcast proof fn lemma_models_of_len(s: Seq<SExpr>)
    ensures
        (#[trigger] models_of(s)).len() == s.len(),
    decreases s.len(),
{
    if s.len() > 0 {
        lemma_models_of_len(s.subrange(1, s.len() as int));
    }
}

pub broadcast proof fn lemma_models_of_index(s: Seq<SExpr>, i: int)
    requires
        0 <= i < s.len(),
    ensures
        #[trigger] models_of(s)[i] == s[i].model(),
    decreases s.len(),
{
    lemma_models_of_len(s);
    if i > 0 {
        lemma_models_of_index(s.subrange(1, s.len() as int), i - 1);
    }
}

pub proof fn lemma_models_of_push(s: Seq<SExpr>, e: SExpr)
    ensures
        models_of(s.push(e)) == models_of(s) + seq![e.model()],
    decreases s.len(),
{
    let t = s.push(e);
    if s.len() == 0 {
        assert(t[0] == e);
        assert(t.subrange(1, t.len() as int) =~= Seq::<SExpr>::empty());
        assert(models_of(Seq::<SExpr>::empty()) == Seq::<SExprModel>::empty());
        assert(models_of(t) =~= models_of(s) + seq![e.model()]);
    } else {
        assert(t[0] == s[0]);
        assert(t.subrange(1, t.len() as int) =~= s.subrange(1, s.len() as int).push(e));
        lemma_models_of_push(s.subrange(1, s.len() as int), e);
        assert(models_of(t) =~= models_of(s) + seq![e.model()]);
    }
}

impl SExpr {
    /// The abstract tree that this expression stands for.
    pub open spec fn model(self) -> SExprModel
        decreases self,
    {
        match self {
            SExpr::Atom(s) => SExprModel::Atom(s@),
            SExpr::List(v) => SExprModel::List(models_of(v@)),
        }
    }

    pub fn is_atom(&self) -> (r: bool)
        ensures
            r == self.model() is Atom,
    {
        matches!(self, SExpr::Atom(_))
    }

    pub fn is_list(&self) -> (r: bool)
        ensures
            r == self.model() is List,
    {
        matches!(self, SExpr::List(_))
    }

    pub fn as_atom(&self) -> (r: Option<&String>)
        ensures
            match r {
                Some(s) => self.model() == SExprModel::Atom(s@),
                None => self.model() is List,
            },
    {
        if let SExpr::Atom(atom) = self {
            Some(atom)
        } else {
            None
        }
    }

    pub fn as_list(&self) -> (r: Option<&Vec<SExpr>>)
        ensures
            match r {
                Some(v) => self.model() == SExprModel::List(models_of(v@)),
                None => self.model() is Atom,
            },
    {
        if let SExpr::List(list) = self {
            Some(list)
        } else {
            None
        }
    }
}

} // verus!
