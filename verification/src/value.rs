//! The runtime value domain and typed constants.
//!
//! A value is exactly one variant of a tagged union. Primitive integer
//! variants carry the corresponding signed fixed-width payload. Collections
//! are finite ordered sequences with a homogeneous element type recorded
//! alongside; tuples are heterogeneous fixed-arity sequences; options are
//! either empty or carry a single value. Equality is structural and total:
//! mixed-variant comparisons are never equal but never panic.

use vstd::prelude::*;

use crate::stype::{SType, STypeV, stype_view, stype_views, lemma_stype_views_index};

verus! {

/// Mathematical model of [`Value`]. Contracts and proofs speak of this model.
#[verifier::ext_equal]
pub enum ValueV {
    /// Boolean.
    Boolean(bool),
    /// Signed 8-bit integer.
    Byte(i8),
    /// Signed 16-bit integer.
    Short(i16),
    /// Signed 32-bit integer.
    Int(i32),
    /// Signed 64-bit integer.
    Long(i64),
    /// Raw byte string.
    ByteArray(Seq<u8>),
    /// Optional value.
    Opt(Option<Box<ValueV>>),
    /// Collection with its element type recorded alongside.
    Coll { elem_tpe: STypeV, items: Seq<ValueV> },
    /// Heterogeneous fixed-arity tuple.
    Tuple(Seq<ValueV>),
}

/// A runtime value of the evaluator.
#[derive(Debug, PartialEq, Eq)]
pub enum Value {
    /// Boolean.
    Boolean(bool),
    /// Signed 8-bit integer.
    Byte(i8),
    /// Signed 16-bit integer.
    Short(i16),
    /// Signed 32-bit integer.
    Int(i32),
    /// Signed 64-bit integer.
    Long(i64),
    /// Raw byte string.
    ByteArray(Vec<u8>),
    /// Optional value.
    Opt(Option<Box<Value>>),
    /// Collection with its element type recorded alongside.
    Coll { elem_tpe: SType, items: Vec<Value> },
    /// Heterogeneous fixed-arity tuple.
    Tuple(Vec<Value>),
}

/// Model of one exec value.
pub open spec fn value_view(v: Value) -> ValueV
    decreases v,
{
    match v {
        Value::Boolean(b) => ValueV::Boolean(b),
        Value::Byte(n) => ValueV::Byte(n),
        Value::Short(n) => ValueV::Short(n),
        Value::Int(n) => ValueV::Int(n),
        Value::Long(n) => ValueV::Long(n),
        Value::ByteArray(bs) => ValueV::ByteArray(bs@),
        Value::Opt(o) => match o {
            Option::None => ValueV::Opt(Option::None),
            Option::Some(inner) => ValueV::Opt(Option::Some(Box::new(value_view(*inner)))),
        },
        Value::Coll { elem_tpe, items } => ValueV::Coll {
            elem_tpe: stype_view(elem_tpe),
            items: value_views(items@),
        },
        Value::Tuple(items) => ValueV::Tuple(value_views(items@)),
    }
}

/// Models of a sequence of exec values, element-wise.
pub open spec fn value_views(vs: Seq<Value>) -> Seq<ValueV>
    decreases vs,
{
    if vs.len() == 0 {
        Seq::empty()
    } else {
        seq![value_view(vs[0])] + value_views(vs.drop_first())
    }
}

impl View for Value {
    type V = ValueV;

    open spec fn view(&self) -> ValueV {
        value_view(*self)
    }
}

/// `value_views` maps element-wise: it keeps the length and models each slot.
pub proof fn lemma_value_views_index(vs: Seq<Value>)
    ensures
        value_views(vs).len() == vs.len(),
        forall|i: int| 0 <= i < vs.len() ==> value_views(vs)[i] == value_view(vs[i]),
    decreases vs,
{
    if vs.len() > 0 {
        lemma_value_views_index(vs.drop_first());
    }
}

/// Whether value `v` inhabits type `t`.
///
/// `SAny` admits no value: it is only an upper bound for polymorphic sites.
/// An empty option inhabits every option type; a collection requires its
/// recorded element type to equal the type's element type.
pub open spec fn conforms(v: ValueV, t: STypeV) -> bool
    decreases t, 0int,
{
    match t {
        STypeV::SBoolean => v is Boolean,
        STypeV::SByte => v is Byte,
        STypeV::SShort => v is Short,
        STypeV::SInt => v is Int,
        STypeV::SLong => v is Long,
        STypeV::SByteArray => v is ByteArray,
        STypeV::SOption(elem) => match v {
            ValueV::Opt(o) => match o {
                Option::None => true,
                Option::Some(inner) => conforms(*inner, *elem),
            },
            _ => false,
        },
        STypeV::SColl(elem) => match v {
            ValueV::Coll { elem_tpe, items } => elem_tpe == *elem && conforms_elems(
                items,
                *elem,
            ),
            _ => false,
        },
        STypeV::STuple(slots) => match v {
            ValueV::Tuple(items) => conforms_slots(items, slots),
            _ => false,
        },
        _ => false,
    }
}

/// Whether every item of a list inhabits one element type.
pub open spec fn conforms_elems(items: Seq<ValueV>, elem: STypeV) -> bool
    decreases elem, items.len(),
{
    if items.len() == 0 {
        true
    } else {
        conforms(items[0], elem) && conforms_elems(items.drop_first(), elem)
    }
}

/// Whether a tuple's items inhabit the per-slot types, positionally.
pub open spec fn conforms_slots(items: Seq<ValueV>, slots: Seq<STypeV>) -> bool
    decreases slots, 0int,
{
    if items.len() != slots.len() {
        false
    } else if slots.len() == 0 {
        true
    } else {
        conforms(items[0], slots[0]) && conforms_slots(items.drop_first(), slots.drop_first())
    }
}

/// `conforms_elems` holds exactly when each item conforms.
pub proof fn lemma_conforms_elems_index(items: Seq<ValueV>, elem: STypeV)
    ensures
        conforms_elems(items, elem) <==> (forall|i: int|
            0 <= i < items.len() ==> #[trigger] conforms(items[i], elem)),
    decreases items.len(),
{
    if items.len() > 0 {
        lemma_conforms_elems_index(items.drop_first(), elem);
        let rest = items.drop_first();
        if conforms_elems(items, elem) {
            assert forall|i: int| 0 <= i < items.len() implies #[trigger] conforms(
                items[i],
                elem,
            ) by {
                if i > 0 {
                    assert(conforms(rest[i - 1], elem));
                    assert(rest[i - 1] == items[i]);
                }
            }
        }
        if forall|i: int| 0 <= i < items.len() ==> #[trigger] conforms(items[i], elem) {
            assert(conforms(items[0], elem));
            assert forall|j: int| 0 <= j < rest.len() implies #[trigger] conforms(
                rest[j],
                elem,
            ) by {
                assert(conforms(items[j + 1], elem));
                assert(rest[j] == items[j + 1]);
            }
            assert(conforms_elems(items, elem));
        }
    }
}

/// `conforms_slots` holds exactly when the arities match and each item
/// conforms to its slot.
pub proof fn lemma_conforms_slots_index(items: Seq<ValueV>, slots: Seq<STypeV>)
    ensures
        conforms_slots(items, slots) <==> (items.len() == slots.len() && forall|i: int|
            0 <= i < items.len() ==> #[trigger] conforms(items[i], slots[i])),
    decreases items.len(),
{
    if items.len() == slots.len() && slots.len() > 0 {
        lemma_conforms_slots_index(items.drop_first(), slots.drop_first());
        let ri = items.drop_first();
        let rs = slots.drop_first();
        if conforms_slots(items, slots) {
            assert forall|i: int| 0 <= i < items.len() implies #[trigger] conforms(
                items[i],
                slots[i],
            ) by {
                if i > 0 {
                    assert(conforms(ri[i - 1], rs[i - 1]));
                    assert(ri[i - 1] == items[i]);
                    assert(rs[i - 1] == slots[i]);
                }
            }
        }
        if forall|i: int| 0 <= i < items.len() ==> #[trigger] conforms(items[i], slots[i]) {
            assert(conforms(items[0], slots[0]));
            assert forall|j: int| 0 <= j < ri.len() implies #[trigger] conforms(
                ri[j],
                rs[j],
            ) by {
                assert(conforms(items[j + 1], slots[j + 1]));
                assert(ri[j] == items[j + 1]);
                assert(rs[j] == slots[j + 1]);
            }
            assert(conforms_slots(items, slots));
        }
    }
}

/// Structural equality of two values. Cross-variant comparisons are false;
/// collections compare their recorded element type and their items.
pub open spec fn val_eq(a: ValueV, b: ValueV) -> bool
    decreases a, 0int,
{
    match (a, b) {
        (ValueV::Boolean(x), ValueV::Boolean(y)) => x == y,
        (ValueV::Byte(x), ValueV::Byte(y)) => x == y,
        (ValueV::Short(x), ValueV::Short(y)) => x == y,
        (ValueV::Int(x), ValueV::Int(y)) => x == y,
        (ValueV::Long(x), ValueV::Long(y)) => x == y,
        (ValueV::ByteArray(x), ValueV::ByteArray(y)) => x == y,
        (ValueV::Opt(x), ValueV::Opt(y)) => match (x, y) {
            (Option::None, Option::None) => true,
            (Option::Some(xa), Option::Some(ya)) => val_eq(*xa, *ya),
            _ => false,
        },
        (
            ValueV::Coll { elem_tpe: ta, items: xs },
            ValueV::Coll { elem_tpe: tb, items: ys },
        ) => ta == tb && val_eq_items(xs, ys),
        (ValueV::Tuple(xs), ValueV::Tuple(ys)) => val_eq_items(xs, ys),
        _ => false,
    }
}

/// Element-wise structural equality of two value lists.
pub open spec fn val_eq_items(xs: Seq<ValueV>, ys: Seq<ValueV>) -> bool
    decreases xs, 1int,
{
    if xs.len() != ys.len() {
        false
    } else if xs.len() == 0 {
        true
    } else {
        val_eq(xs[0], ys[0]) && val_eq_items(xs.drop_first(), ys.drop_first())
    }
}

/// `val_eq_items` holds exactly when the lengths match and each pair of
/// items is structurally equal.
pub proof fn lemma_val_eq_items_index(xs: Seq<ValueV>, ys: Seq<ValueV>)
    ensures
        val_eq_items(xs, ys) <==> (xs.len() == ys.len() && forall|i: int|
            0 <= i < xs.len() ==> #[trigger] val_eq(xs[i], ys[i])),
    decreases xs.len(),
{
    if xs.len() == ys.len() && xs.len() > 0 {
        lemma_val_eq_items_index(xs.drop_first(), ys.drop_first());
        let dx = xs.drop_first();
        let dy = ys.drop_first();
        if val_eq_items(xs, ys) {
            assert forall|i: int| 0 <= i < xs.len() implies #[trigger] val_eq(xs[i], ys[i]) by {
                if i > 0 {
                    assert(val_eq(dx[i - 1], dy[i - 1]));
                    assert(dx[i - 1] == xs[i]);
                    assert(dy[i - 1] == ys[i]);
                }
            }
        }
        if forall|i: int| 0 <= i < xs.len() ==> #[trigger] val_eq(xs[i], ys[i]) {
            assert(val_eq(xs[0], ys[0]));
            assert forall|j: int| 0 <= j < dx.len() implies #[trigger] val_eq(dx[j], dy[j]) by {
                assert(val_eq(xs[j + 1], ys[j + 1]));
                assert(dx[j] == xs[j + 1]);
                assert(dy[j] == ys[j + 1]);
            }
            assert(val_eq_items(xs, ys));
        }
    }
}

/// Structural equality is reflexive.
pub proof fn lemma_val_eq_reflexive(a: ValueV)
    ensures
        val_eq(a, a),
    decreases a, 0int,
{
    match a {
        ValueV::Opt(o) => match o {
            Option::Some(inner) => lemma_val_eq_reflexive(*inner),
            Option::None => {},
        },
        ValueV::Coll { elem_tpe, items } => {
            lemma_val_eq_items_reflexive(items);
        },
        ValueV::Tuple(items) => {
            lemma_val_eq_items_reflexive(items);
        },
        _ => {},
    }
}

/// Element-wise structural equality is reflexive.
pub proof fn lemma_val_eq_items_reflexive(items: Seq<ValueV>)
    ensures
        val_eq_items(items, items),
    decreases items, 1int,
{
    if items.len() > 0 {
        lemma_val_eq_reflexive(items[0]);
        lemma_val_eq_items_reflexive(items.drop_first());
    }
}

impl Clone for Value {
    /// Deep copy; the copy models the same value.
    fn clone(&self) -> (r: Self)
        ensures
            r@ == self@,
        decreases self,
    {
        match self {
            Value::Boolean(b) => Value::Boolean(*b),
            Value::Byte(n) => Value::Byte(*n),
            Value::Short(n) => Value::Short(*n),
            Value::Int(n) => Value::Int(*n),
            Value::Long(n) => Value::Long(*n),
            Value::ByteArray(bs) => Value::ByteArray(clone_bytes(bs)),
            Value::Opt(o) => match o {
                Option::None => Value::Opt(Option::None),
                Option::Some(inner) => Value::Opt(Option::Some(Box::new((**inner).clone()))),
            },
            Value::Coll { elem_tpe, items } => Value::Coll {
                elem_tpe: elem_tpe.clone(),
                items: clone_values(items),
            },
            Value::Tuple(items) => Value::Tuple(clone_values(items)),
        }
    }
}

/// Byte-for-byte copy of a byte string.
pub fn clone_bytes(bs: &Vec<u8>) -> (r: Vec<u8>)
    ensures
        r@ == bs@,
{
    let mut out: Vec<u8> = Vec::new();
    let n = bs.len();
    let mut i: usize = 0;
    while i < n
        invariant
            n == bs.len(),
            0 <= i <= n,
            out@ =~= bs@.take(i as int),
        decreases n - i,
    {
        out.push(bs[i]);
        i += 1;
    }
    proof {
        assert(out@ =~= bs@);
    }
    out
}

/// Deep copy of a value list; the copy models the same values.
fn clone_values(vs: &Vec<Value>) -> (r: Vec<Value>)
    ensures
        value_views(r@) == value_views(vs@),
    decreases vs@,
{
    proof {
        lemma_value_views_index(vs@);
    }
    let mut out: Vec<Value> = Vec::new();
    let n = vs.len();
    let mut i: usize = 0;
    while i < n
        invariant
            n == vs.len(),
            0 <= i <= n,
            out@.len() == i,
            value_views(vs@).len() == vs@.len(),
            forall|k: int| 0 <= k < vs@.len() ==> value_views(vs@)[k] == value_view(vs@[k]),
            forall|k: int| 0 <= k < i ==> value_view(out@[k]) == value_view(vs@[k]),
        decreases n - i,
    {
        out.push(vs[i].clone());
        i += 1;
    }
    proof {
        lemma_value_views_index(out@);
        assert(value_views(out@) =~= value_views(vs@));
    }
    out
}

impl Value {
    /// Structural equality, decided by value. Never panics; values of
    /// different variants are simply unequal.
    pub fn v_eq(&self, other: &Value) -> (r: bool)
        ensures
            r == val_eq(self@, other@),
        decreases self, 0int,
    {
        match (self, other) {
            (Value::Boolean(x), Value::Boolean(y)) => *x == *y,
            (Value::Byte(x), Value::Byte(y)) => *x == *y,
            (Value::Short(x), Value::Short(y)) => *x == *y,
            (Value::Int(x), Value::Int(y)) => *x == *y,
            (Value::Long(x), Value::Long(y)) => *x == *y,
            (Value::ByteArray(x), Value::ByteArray(y)) => bytes_eq(x, y),
            (Value::Opt(x), Value::Opt(y)) => match (x, y) {
                (Option::None, Option::None) => true,
                (Option::Some(xa), Option::Some(ya)) => xa.v_eq(ya),
                _ => false,
            },
            (
                Value::Coll { elem_tpe: ta, items: xs },
                Value::Coll { elem_tpe: tb, items: ys },
            ) => {
                let types_eq = ta.st_eq(tb);
                types_eq && v_eq_slice(xs, ys)
            },
            (Value::Tuple(xs), Value::Tuple(ys)) => v_eq_slice(xs, ys),
            _ => false,
        }
    }
}

/// Byte-string equality, decided by value.
pub fn bytes_eq(a: &Vec<u8>, b: &Vec<u8>) -> (r: bool)
    ensures
        r == (a@ == b@),
{
    if a.len() != b.len() {
        return false;
    }
    let n = a.len();
    let mut i: usize = 0;
    while i < n
        invariant
            n == a.len(),
            a@.len() == b@.len(),
            0 <= i <= n,
            forall|k: int| 0 <= k < i ==> a@[k] == b@[k],
        decreases n - i,
    {
        if a[i] != b[i] {
            return false;
        }
        i += 1;
    }
    proof {
        assert(a@ =~= b@);
    }
    true
}

/// Element-wise structural equality of two value lists, decided by value.
fn v_eq_slice(a: &Vec<Value>, b: &Vec<Value>) -> (r: bool)
    ensures
        r == val_eq_items(value_views(a@), value_views(b@)),
    decreases a@, 1int,
{
    proof {
        lemma_value_views_index(a@);
        lemma_value_views_index(b@);
        lemma_val_eq_items_index(value_views(a@), value_views(b@));
    }
    if a.len() != b.len() {
        return false;
    }
    let n = a.len();
    let mut i: usize = 0;
    while i < n
        invariant
            n == a.len(),
            a@.len() == b@.len(),
            0 <= i <= n,
            value_views(a@).len() == a@.len(),
            value_views(b@).len() == b@.len(),
            val_eq_items(value_views(a@), value_views(b@)) <==> (forall|k: int|
                0 <= k < a@.len() ==> #[trigger] val_eq(value_views(a@)[k], value_views(b@)[k])),
            forall|k: int| 0 <= k < a@.len() ==> value_views(a@)[k] == value_view(a@[k]),
            forall|k: int| 0 <= k < b@.len() ==> value_views(b@)[k] == value_view(b@[k]),
            forall|k: int| 0 <= k < i ==> #[trigger] val_eq(
                value_views(a@)[k],
                value_views(b@)[k],
            ),
        decreases n - i,
    {
        if !a[i].v_eq(&b[i]) {
            proof {
                assert(!val_eq(value_views(a@)[i as int], value_views(b@)[i as int]));
            }
            return false;
        }
        i += 1;
    }
    true
}

/// A construction-time type mismatch between an operator (or a constant's
/// declared type) and its operands.
#[derive(Debug, PartialEq, Eq, Clone, Copy)]
pub struct TypeError;

impl TypeError {
    /// Human-readable classification of this error.
    pub fn description(&self) -> &'static str {
        "type mismatch during construction"
    }
}

/// A typed constant: a value together with its declared type.
#[derive(Debug, PartialEq, Eq)]
pub struct Constant {
    /// The declared type; the payload conforms to it by construction.
    pub tpe: SType,
    /// The payload.
    pub v: Value,
}

/// Mathematical model of [`Constant`].
#[verifier::ext_equal]
pub struct ConstantV {
    /// The declared type.
    pub tpe: STypeV,
    /// The payload.
    pub v: ValueV,
}

impl View for Constant {
    type V = ConstantV;

    open spec fn view(&self) -> ConstantV {
        ConstantV { tpe: self.tpe@, v: self.v@ }
    }
}

impl Clone for Constant {
    /// Deep copy; the copy models the same constant.
    fn clone(&self) -> (r: Self)
        ensures
            r@ == self@,
    {
        let r = Constant { tpe: self.tpe.clone(), v: self.v.clone() };
        proof {
            assert(r@ =~= self@);
        }
        r
    }
}

impl Constant {
    /// Builds a typed constant, rejecting a payload that does not inhabit
    /// the declared type.
    pub fn new(tpe: SType, v: Value) -> (r: Result<Constant, TypeError>)
        ensures
            conforms(v@, tpe@) ==> r == Ok::<Constant, TypeError>(Constant { tpe, v }),
            !conforms(v@, tpe@) ==> r == Err::<Constant, TypeError>(TypeError),
    {
        if value_conforms(&v, &tpe) {
            Ok(Constant { tpe, v })
        } else {
            Err(TypeError)
        }
    }
}

/// Decides whether `v` inhabits `t`.
pub fn value_conforms(v: &Value, t: &SType) -> (r: bool)
    ensures
        r == conforms(v@, t@),
    decreases t, 0int,
{
    match t {
        SType::SBoolean => matches!(v, Value::Boolean(_)),
        SType::SByte => matches!(v, Value::Byte(_)),
        SType::SShort => matches!(v, Value::Short(_)),
        SType::SInt => matches!(v, Value::Int(_)),
        SType::SLong => matches!(v, Value::Long(_)),
        SType::SByteArray => matches!(v, Value::ByteArray(_)),
        SType::SOption(elem) => match v {
            Value::Opt(o) => match o {
                Option::None => true,
                Option::Some(inner) => value_conforms(inner, elem),
            },
            _ => false,
        },
        SType::SColl(elem) => match v {
            Value::Coll { elem_tpe, items } => {
                let types_eq = elem_tpe.st_eq(elem);
                types_eq && values_conform_to(items, elem)
            },
            _ => false,
        },
        SType::STuple(slots) => match v {
            Value::Tuple(items) => values_conform_slots(items, slots),
            _ => false,
        },
        _ => false,
    }
}

/// Decides whether every item of a list inhabits one element type.
fn values_conform_to(items: &Vec<Value>, elem: &SType) -> (r: bool)
    ensures
        r == conforms_elems(value_views(items@), elem@),
    decreases elem, 1int,
{
    proof {
        lemma_value_views_index(items@);
        lemma_conforms_elems_index(value_views(items@), elem@);
    }
    let n = items.len();
    let mut i: usize = 0;
    while i < n
        invariant
            n == items.len(),
            0 <= i <= n,
            value_views(items@).len() == items@.len(),
            conforms_elems(value_views(items@), elem@) <==> (forall|k: int|
                0 <= k < items@.len() ==> #[trigger] conforms(value_views(items@)[k], elem@)),
            forall|k: int|
                0 <= k < items@.len() ==> value_views(items@)[k] == value_view(items@[k]),
            forall|k: int| 0 <= k < i ==> #[trigger] conforms(value_views(items@)[k], elem@),
        decreases n - i,
    {
        if !value_conforms(&items[i], elem) {
            proof {
                assert(!conforms(value_views(items@)[i as int], elem@));
            }
            return false;
        }
        i += 1;
    }
    true
}

/// Decides whether a tuple's items inhabit the per-slot types.
fn values_conform_slots(items: &Vec<Value>, slots: &Vec<SType>) -> (r: bool)
    ensures
        r == conforms_slots(value_views(items@), stype_views(slots@)),
    decreases slots@, 1int,
{
    proof {
        lemma_value_views_index(items@);
        lemma_stype_views_index(slots@);
        lemma_conforms_slots_index(value_views(items@), stype_views(slots@));
    }
    if items.len() != slots.len() {
        return false;
    }
    let n = items.len();
    let mut i: usize = 0;
    while i < n
        invariant
            n == items.len(),
            items@.len() == slots@.len(),
            0 <= i <= n,
            value_views(items@).len() == items@.len(),
            stype_views(slots@).len() == slots@.len(),
            conforms_slots(value_views(items@), stype_views(slots@)) <==> (forall|k: int|
                0 <= k < items@.len() ==> #[trigger] conforms(
                    value_views(items@)[k],
                    stype_views(slots@)[k],
                )),
            forall|k: int|
                0 <= k < items@.len() ==> value_views(items@)[k] == value_view(items@[k]),
            forall|k: int|
                0 <= k < slots@.len() ==> stype_views(slots@)[k] == stype_view(slots@[k]),
            forall|k: int| 0 <= k < i ==> #[trigger] conforms(
                value_views(items@)[k],
                stype_views(slots@)[k],
            ),
        decreases n - i,
    {
        if !value_conforms(&items[i], &slots[i]) {
            proof {
                assert(!conforms(value_views(items@)[i as int], stype_views(slots@)[i as int]));
            }
            return false;
        }
        i += 1;
    }
    true
}

} // verus!
