use vstd::prelude::*;

verus! {

/// The types the checker and the code generator work with.
#[derive(Debug, PartialEq)]
pub enum Ty {
    Int,
    Float,
    Bool,
    String,
    Unit,
    /// A struct, by name.
    Struct(String),
    /// A function: parameter types and return type.
    Fn { params: Vec<Ty>, ret: Box<Ty> },
    /// A type that could not be worked out.
    Unknown,
}

/// What a type is, with its parts as mathematical values.
pub enum TyView {
    Int,
    Float,
    Bool,
    String,
    Unit,
    Struct(Seq<char>),
    Fn { params: Seq<TyView>, ret: Box<TyView> },
    Unknown,
}

pub open spec fn ty_view(t: Ty) -> TyView
    decreases t,
{
    match t {
        Ty::Int => TyView::Int,
        Ty::Float => TyView::Float,
        Ty::Bool => TyView::Bool,
        Ty::String => TyView::String,
        Ty::Unit => TyView::Unit,
        Ty::Struct(s) => TyView::Struct(s@),
        Ty::Fn { params, ret } => TyView::Fn {
            params: Seq::new(
                params@.len(),
                |i: int| if 0 <= i < params@.len() { ty_view(params@[i]) } else { TyView::Unknown },
            ),
            ret: Box::new(ty_view(*ret)),
        },
        Ty::Unknown => TyView::Unknown,
    }
}

impl View for Ty {
    type V = TyView;

    open spec fn view(&self) -> TyView {
        ty_view(*self)
    }
}

impl Ty {
    /// A copy of the type.
    #[verifier::loop_isolation(false)]
    pub fn duplicate(&self) -> (r: Ty)
        ensures
            r@ == self@,
        decreases self,
    {
        match self {
            Ty::Int => Ty::Int,
            Ty::Float => Ty::Float,
            Ty::Bool => Ty::Bool,
            Ty::String => Ty::String,
            Ty::Unit => Ty::Unit,
            Ty::Struct(s) => Ty::Struct(s.clone()),
            Ty::Fn { params, ret } => {
                let mut ps: Vec<Ty> = Vec::new();
                let n = params.len();
                let mut i: usize = 0;
                while i < n
                    invariant
                        n == params@.len(),
                        i <= n,
                        ps@.len() == i,
                        forall|j: int| 0 <= j < i ==> (#[trigger] ps@[j])@ == params@[j]@,
                    decreases n - i,
                {
                    proof {
                        assert(decreases_to!(self => params));
                        assert(decreases_to!(params => params@));
                        assert(decreases_to!(params@ => params@[i as int]));
                    }
                    let p = params[i].duplicate();
                    ps.push(p);
                    i = i + 1;
                }
                let r = ret.duplicate();
                let result = Ty::Fn { params: ps, ret: Box::new(r) };
                proof {
                    match (result@, self@) {
                        (TyView::Fn { params: a, .. }, TyView::Fn { params: b, .. }) => {
                            assert(a =~= b);
                        },
                        _ => {},
                    }
                }
                result
            },
            Ty::Unknown => Ty::Unknown,
        }
    }
}

impl Clone for Ty {
    fn clone(&self) -> (r: Self)
        ensures
            r@ == self@,
    {
        self.duplicate()
    }
}

} // verus!
