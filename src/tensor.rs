use vstd::prelude::*;

use crate::error::DiffusionError;

verus! {

/// Number of elements of a tensor with dimensions `s`.
pub open spec fn shape_size(s: Seq<usize>) -> nat
    decreases s.len(),
{
    if s.len() == 0 {
        1
    } else {
        shape_size(s.drop_last()) * (s.last() as nat)
    }
}

proof fn lemma_size_has_zero(s: Seq<usize>, k: int)
    requires
        0 <= k < s.len(),
        s[k] == 0,
    ensures
        shape_size(s) == 0,
    decreases s.len(),
{
    if k < s.len() - 1 {
        assert(s.drop_last()[k] == 0);
        lemma_size_has_zero(s.drop_last(), k);
        assert(shape_size(s) == 0 * (s.last() as nat));
    } else {
        assert(s.last() == 0);
        assert(shape_size(s) == shape_size(s.drop_last()) * 0);
    }
}

proof fn lemma_size_prefix_le(s: Seq<usize>, i: int)
    requires
        0 <= i <= s.len(),
        forall|j: int| 0 <= j < s.len() ==> s[j] >= 1,
    ensures
        shape_size(s.take(i)) <= shape_size(s),
    decreases s.len(),
{
    if i < s.len() {
        assert(s.drop_last().take(i) =~= s.take(i));
        lemma_size_prefix_le(s.drop_last(), i);
        let a = shape_size(s.drop_last());
        let b = s.last() as nat;
        assert(a <= a * b) by (nonlinear_arith)
            requires b >= 1;
    } else {
        assert(s.take(i) =~= s);
    }
}

/// The number of elements of a tensor of shape `shape`, or `None` where it exceeds `usize`.
pub fn element_count(shape: &Vec<usize>) -> (r: Option<usize>)
    ensures
        r.is_some() <==> shape_size(shape@) <= usize::MAX,
        r.is_some() ==> r->Some_0 == shape_size(shape@),
{
    let mut k: usize = 0;
    while k < shape.len()
        invariant
            k <= shape.len(),
            forall|j: int| 0 <= j < k ==> shape@[j] >= 1,
        decreases shape.len() - k,
    {
        if shape[k] == 0 {
            proof {
                lemma_size_has_zero(shape@, k as int);
            }
            return Some(0);
        }
        k = k + 1;
    }
    let mut acc: usize = 1;
    let mut i: usize = 0;
    while i < shape.len()
        invariant
            i <= shape.len(),
            forall|j: int| 0 <= j < shape.len() ==> shape@[j] >= 1,
            acc == shape_size(shape@.take(i as int)),
        decreases shape.len() - i,
    {
        assert(shape@.take(i + 1).drop_last() =~= shape@.take(i as int));
        match acc.checked_mul(shape[i]) {
            Some(v) => {
                acc = v;
            },
            None => {
                proof {
                    lemma_size_prefix_le(shape@, i + 1);
                }
                return None;
            },
        }
        i = i + 1;
    }
    assert(shape@.take(i as int) =~= shape@);
    Some(acc)
}

/// A tensor's contents laid out in row-major order, together with its dimensions.
pub struct TensorData<E> {
    pub shape: Vec<usize>,
    pub values: Vec<E>,
}

impl<E> TensorData<E> {
    /// The number of values agrees with the dimensions.
    pub open spec fn wf(&self) -> bool {
        self.values@.len() == shape_size(self.shape@)
    }

    /// Pairs `values` with `shape`, failing where their sizes disagree.
    pub fn new(shape: Vec<usize>, values: Vec<E>) -> (r: Result<TensorData<E>, DiffusionError>)
        ensures
            r.is_ok() <==> values@.len() == shape_size(shape@),
            r.is_ok() ==> r->Ok_0.shape@ == shape@ && r->Ok_0.values@ == values@,
            !r.is_ok() ==> r->Err_0 == DiffusionError::ShapeMismatch,
    {
        match element_count(&shape) {
            Some(n) => {
                if n == values.len() {
                    Ok(TensorData { shape, values })
                } else {
                    Err(DiffusionError::ShapeMismatch)
                }
            },
            None => {
                let n = values.len();
                assert(n == values@.len());
                Err(DiffusionError::ShapeMismatch)
            },
        }
    }

    /// Carries every value through `f` into another numeric representation, keeping the
    /// dimensions and the order of the values.
    pub fn convert<T, F: Fn(E) -> T>(self, f: F) -> (r: TensorData<T>)
        requires
            forall|i: int| 0 <= i < self.values@.len() ==> call_requires(f, (self.values@[i],)),
        ensures
            r.shape@ == self.shape@,
            r.values@.len() == self.values@.len(),
            self.wf() ==> r.wf(),
            forall|i: int| 0 <= i < self.values@.len() ==> call_ensures(f, (self.values@[i],), #[trigger] r.values@[i]),
    {
        let TensorData { shape, values } = self;
        let ghost old_values = values@;
        let mut values = values;
        let mut src: Vec<E> = Vec::new();
        while values.len() > 0
            invariant
                values@.len() + src@.len() == old_values.len(),
                forall|j: int| 0 <= j < values@.len() ==> values@[j] == old_values[j],
                forall|j: int| 0 <= j < src@.len() ==> src@[j] == old_values[old_values.len() - 1 - j],
            decreases values@.len(),
        {
            let v = values.pop().unwrap();
            src.push(v);
        }
        let mut out: Vec<T> = Vec::new();
        while src.len() > 0
            invariant
                src@.len() + out@.len() == old_values.len(),
                forall|j: int| 0 <= j < src@.len() ==> src@[j] == old_values[old_values.len() - 1 - j],
                forall|i: int| 0 <= i < old_values.len() ==> call_requires(f, (old_values[i],)),
                forall|i: int| 0 <= i < out@.len() ==> call_ensures(f, (old_values[i],), #[trigger] out@[i]),
            decreases src@.len(),
        {
            let v = src.pop().unwrap();
            let w = f(v);
            out.push(w);
        }
        TensorData { shape, values: out }
    }
}

} // verus!
