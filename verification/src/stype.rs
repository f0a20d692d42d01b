//! The structural type system `SType`.
//!
//! Types are a closed variant set: ground types mirroring the value tags,
//! plus the constructors `SOption`, `SColl`, `STuple` and `SFunc`. Types are
//! structural and comparable by value.

use vstd::prelude::*;

verus! {

/// Mathematical model of [`SType`]: the same variant set over `Seq` instead
/// of `Vec`. Contracts and proofs speak of this model.
#[verifier::ext_equal]
pub enum STypeV {
    /// Upper bound for polymorphic sites (e.g. equality); never the type of a value.
    SAny,
    /// Boolean.
    SBoolean,
    /// Signed 8-bit integer.
    SByte,
    /// Signed 16-bit integer.
    SShort,
    /// Signed 32-bit integer.
    SInt,
    /// Signed 64-bit integer.
    SLong,
    /// Arbitrary-precision integer (no values are constructed for it here).
    SBigInt,
    /// Raw byte string.
    SByteArray,
    /// Group element (opaque domain type).
    SGroupElement,
    /// Sigma proposition (opaque domain type).
    SSigmaProp,
    /// Box (opaque domain type).
    SBox,
    /// AVL tree digest (opaque domain type).
    SAvlTree,
    /// Optional value.
    SOption(Box<STypeV>),
    /// Homogeneous collection.
    SColl(Box<STypeV>),
    /// Heterogeneous fixed-arity tuple.
    STuple(Seq<STypeV>),
    /// Function type: argument types and result type.
    SFunc(Seq<STypeV>, Box<STypeV>),
}

/// A type of the expression IR.
#[derive(Debug, PartialEq, Eq)]
pub enum SType {
    /// Upper bound for polymorphic sites (e.g. equality); never the type of a value.
    SAny,
    /// Boolean.
    SBoolean,
    /// Signed 8-bit integer.
    SByte,
    /// Signed 16-bit integer.
    SShort,
    /// Signed 32-bit integer.
    SInt,
    /// Signed 64-bit integer.
    SLong,
    /// Arbitrary-precision integer (no values are constructed for it here).
    SBigInt,
    /// Raw byte string.
    SByteArray,
    /// Group element (opaque domain type).
    SGroupElement,
    /// Sigma proposition (opaque domain type).
    SSigmaProp,
    /// Box (opaque domain type).
    SBox,
    /// AVL tree digest (opaque domain type).
    SAvlTree,
    /// Optional value.
    SOption(Box<SType>),
    /// Homogeneous collection.
    SColl(Box<SType>),
    /// Heterogeneous fixed-arity tuple.
    STuple(Vec<SType>),
    /// Function type: argument types and result type.
    SFunc(Vec<SType>, Box<SType>),
}

/// Model of one exec type.
pub open spec fn stype_view(t: SType) -> STypeV
    decreases t,
{
    match t {
        SType::SAny => STypeV::SAny,
        SType::SBoolean => STypeV::SBoolean,
        SType::SByte => STypeV::SByte,
        SType::SShort => STypeV::SShort,
        SType::SInt => STypeV::SInt,
        SType::SLong => STypeV::SLong,
        SType::SBigInt => STypeV::SBigInt,
        SType::SByteArray => STypeV::SByteArray,
        SType::SGroupElement => STypeV::SGroupElement,
        SType::SSigmaProp => STypeV::SSigmaProp,
        SType::SBox => STypeV::SBox,
        SType::SAvlTree => STypeV::SAvlTree,
        SType::SOption(e) => STypeV::SOption(Box::new(stype_view(*e))),
        SType::SColl(e) => STypeV::SColl(Box::new(stype_view(*e))),
        SType::STuple(items) => STypeV::STuple(stype_views(items@)),
        SType::SFunc(args, res) => STypeV::SFunc(stype_views(args@), Box::new(stype_view(*res))),
    }
}

/// Models of a sequence of exec types, element-wise.
pub open spec fn stype_views(ts: Seq<SType>) -> Seq<STypeV>
    decreases ts,
{
    if ts.len() == 0 {
        Seq::empty()
    } else {
        seq![stype_view(ts[0])] + stype_views(ts.drop_first())
    }
}

impl View for SType {
    type V = STypeV;

    open spec fn view(&self) -> STypeV {
        stype_view(*self)
    }
}

/// `stype_views` maps element-wise: it keeps the length and models each slot.
pub proof fn lemma_stype_views_index(ts: Seq<SType>)
    ensures
        stype_views(ts).len() == ts.len(),
        forall|i: int| 0 <= i < ts.len() ==> stype_views(ts)[i] == stype_view(ts[i]),
    decreases ts,
{
    if ts.len() > 0 {
        lemma_stype_views_index(ts.drop_first());
    }
}

impl Clone for SType {
    /// Deep copy; the copy models the same type.
    fn clone(&self) -> (r: Self)
        ensures
            r@ == self@,
        decreases self,
    {
        match self {
            SType::SAny => SType::SAny,
            SType::SBoolean => SType::SBoolean,
            SType::SByte => SType::SByte,
            SType::SShort => SType::SShort,
            SType::SInt => SType::SInt,
            SType::SLong => SType::SLong,
            SType::SBigInt => SType::SBigInt,
            SType::SByteArray => SType::SByteArray,
            SType::SGroupElement => SType::SGroupElement,
            SType::SSigmaProp => SType::SSigmaProp,
            SType::SBox => SType::SBox,
            SType::SAvlTree => SType::SAvlTree,
            SType::SOption(e) => SType::SOption(Box::new((**e).clone())),
            SType::SColl(e) => SType::SColl(Box::new((**e).clone())),
            SType::STuple(items) => SType::STuple(clone_stypes(items)),
            SType::SFunc(args, res) => SType::SFunc(
                clone_stypes(args),
                Box::new((**res).clone()),
            ),
        }
    }
}

/// Deep copy of a type list; the copy models the same types.
fn clone_stypes(ts: &Vec<SType>) -> (r: Vec<SType>)
    ensures
        stype_views(r@) == stype_views(ts@),
    decreases ts@,
{
    proof {
        lemma_stype_views_index(ts@);
    }
    let mut out: Vec<SType> = Vec::new();
    let n = ts.len();
    let mut i: usize = 0;
    while i < n
        invariant
            n == ts.len(),
            0 <= i <= n,
            out@.len() == i,
            forall|k: int| 0 <= k < ts@.len() ==> stype_views(ts@)[k] == stype_view(ts@[k]),
            stype_views(ts@).len() == ts@.len(),
            forall|k: int| 0 <= k < i ==> stype_view(out@[k]) == stype_view(ts@[k]),
        decreases n - i,
    {
        out.push(ts[i].clone());
        i += 1;
    }
    proof {
        lemma_stype_views_index(out@);
        assert(stype_views(out@) =~= stype_views(ts@));
    }
    out
}

impl SType {
    /// Structural equality of two types, decided by value.
    pub fn st_eq(&self, other: &SType) -> (r: bool)
        ensures
            r == (self@ == other@),
        decreases self,
    {
        match (self, other) {
            (SType::SAny, SType::SAny) => true,
            (SType::SBoolean, SType::SBoolean) => true,
            (SType::SByte, SType::SByte) => true,
            (SType::SShort, SType::SShort) => true,
            (SType::SInt, SType::SInt) => true,
            (SType::SLong, SType::SLong) => true,
            (SType::SBigInt, SType::SBigInt) => true,
            (SType::SByteArray, SType::SByteArray) => true,
            (SType::SGroupElement, SType::SGroupElement) => true,
            (SType::SSigmaProp, SType::SSigmaProp) => true,
            (SType::SBox, SType::SBox) => true,
            (SType::SAvlTree, SType::SAvlTree) => true,
            (SType::SOption(a), SType::SOption(b)) => a.st_eq(b),
            (SType::SColl(a), SType::SColl(b)) => a.st_eq(b),
            (SType::STuple(a), SType::STuple(b)) => st_eq_slice(a, b),
            (SType::SFunc(aa, ar), SType::SFunc(ba, br)) => {
                let args_eq = st_eq_slice(aa, ba);
                args_eq && ar.st_eq(br)
            },
            _ => false,
        }
    }
}

/// Structural equality of two type lists, decided by value.
fn st_eq_slice(a: &Vec<SType>, b: &Vec<SType>) -> (r: bool)
    ensures
        r == (stype_views(a@) == stype_views(b@)),
    decreases a@,
{
    proof {
        lemma_stype_views_index(a@);
        lemma_stype_views_index(b@);
    }
    if a.len() != b.len() {
        return false;
    }
    let n = a.len();
    let mut i: usize = 0;
    while i < n
        invariant
            n == a.len(),
            a@.len() == b@.len(),
            0 <= i <= n,
            stype_views(a@).len() == a@.len(),
            stype_views(b@).len() == b@.len(),
            forall|k: int| 0 <= k < a@.len() ==> stype_views(a@)[k] == stype_view(a@[k]),
            forall|k: int| 0 <= k < b@.len() ==> stype_views(b@)[k] == stype_view(b@[k]),
            forall|k: int| 0 <= k < i ==> stype_view(a@[k]) == stype_view(b@[k]),
        decreases n - i,
    {
        if !a[i].st_eq(&b[i]) {
            proof {
                assert(stype_views(a@)[i as int] != stype_views(b@)[i as int]);
            }
            return false;
        }
        i += 1;
    }
    proof {
        assert(stype_views(a@) =~= stype_views(b@));
    }
    true
}

} // verus!
