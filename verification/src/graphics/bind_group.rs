//! The layout of the uniform buffer of a bind group: each parameter is placed at the next
//! offset that is a multiple of its alignment

use vstd::prelude::*;

use super::{round_up, next_multiple_of_usize};

verus! {

/// The end of the layout of the parameters, each given by its alignment and size
pub open spec fn layout_end(params: Seq<(usize, usize)>) -> int
    decreases params.len(),
{
    if params.len() == 0 {
        0
    } else {
        round_up(layout_end(params.drop_last()), params.last().0 as int) + params.last().1
    }
}

/// The offset of parameter `i` in the layout
pub open spec fn param_offset(params: Seq<(usize, usize)>, i: int) -> int {
    round_up(layout_end(params.take(i)), params[i].0 as int)
}

/// Every alignment is positive
pub open spec fn aligns_positive(params: Seq<(usize, usize)>) -> bool {
    forall|i: int| 0 <= i < params.len() ==> (#[trigger] params[i]).0 > 0
}

/// The layout ends no further than `bound`, and each alignment would fit past each end
pub open spec fn layout_fits(params: Seq<(usize, usize)>, bound: int) -> bool {
    forall|k: int| 0 <= k <= params.len() ==> layout_end(#[trigger] params.take(k)) + max_align(params) <= bound
}

/// The largest alignment
pub open spec fn max_align(params: Seq<(usize, usize)>) -> int
    decreases params.len(),
{
    if params.len() == 0 {
        0
    } else {
        let m = max_align(params.drop_last());
        if params.last().0 > m { params.last().0 as int } else { m }
    }
}

proof fn lemma_max_align(params: Seq<(usize, usize)>, i: int)
    requires
        0 <= i < params.len(),
    ensures
        params[i].0 <= max_align(params),
    decreases params.len(),
{
    if i < params.len() - 1 {
        lemma_max_align(params.drop_last(), i);
    }
}

proof fn lemma_layout_monotone(params: Seq<(usize, usize)>, k: int)
    requires
        aligns_positive(params),
        0 <= k < params.len(),
    ensures
        layout_end(params.take(k)) <= param_offset(params, k),
        param_offset(params, k) + params[k].1 == layout_end(params.take(k + 1)),
        param_offset(params, k) % (params[k].0 as int) == 0,
{
    let pre = params.take(k);
    let next = params.take(k + 1);
    assert(next.drop_last() =~= pre);
    assert(next.last() == params[k]);
    lemma_layout_nonneg(pre);
    super::lemma_round_up(layout_end(pre), params[k].0 as int);
}

proof fn lemma_layout_nonneg(params: Seq<(usize, usize)>)
    ensures
        layout_end(params) >= 0,
    decreases params.len(),
{
    if params.len() > 0 {
        lemma_layout_nonneg(params.drop_last());
        if params.last().0 > 0 {
            super::lemma_round_up(layout_end(params.drop_last()), params.last().0 as int);
        } else {
            assert(layout_end(params.drop_last()) % 0 == layout_end(params.drop_last()) % 0);
        }
    }
}

/// Returns the total size of the buffer needed to hold the parameters, each given by
/// its alignment and size
pub fn total_buffer_size(params: &Vec<(usize, usize)>) -> (r: usize)
    requires
        aligns_positive(params@),
        layout_fits(params@, usize::MAX as int),
    ensures
        r == layout_end(params@),
{
    let mut size: usize = 0;
    let mut i: usize = 0;
    while i < params.len()
        invariant
            0 <= i <= params@.len(),
            aligns_positive(params@),
            layout_fits(params@, usize::MAX as int),
            size == layout_end(params@.take(i as int)),
        decreases params.len() - i,
    {
        proof {
            lemma_layout_monotone(params@, i as int);
            lemma_max_align(params@, i as int);
            assert(layout_end(params@.take(i as int)) + max_align(params@) <= usize::MAX);
            assert(layout_end(params@.take(i + 1)) + max_align(params@) <= usize::MAX);
            lemma_layout_nonneg(params@.take(i + 1));
        }
        size = next_multiple_of_usize(size, params[i].0);
        size = size + params[i].1;
        i += 1;
    }
    assert(params@.take(params@.len() as int) =~= params@);
    size
}

/// Returns the offset and size of parameter `idx` in the buffer. The index must be in range
pub fn buffer_offset_size(params: &Vec<(usize, usize)>, idx: usize) -> (r: (usize, usize))
    requires
        idx < params@.len(),
        aligns_positive(params@),
        layout_fits(params@, usize::MAX as int),
    ensures
        r.0 == param_offset(params@, idx as int),
        r.1 == params@[idx as int].1,
{
    let mut offset: usize = 0;
    let mut i: usize = 0;
    while i < idx
        invariant
            0 <= i <= idx < params@.len(),
            aligns_positive(params@),
            layout_fits(params@, usize::MAX as int),
            offset == layout_end(params@.take(i as int)),
        decreases idx - i,
    {
        proof {
            lemma_layout_monotone(params@, i as int);
            lemma_max_align(params@, i as int);
            assert(layout_end(params@.take(i as int)) + max_align(params@) <= usize::MAX);
            assert(layout_end(params@.take(i + 1)) + max_align(params@) <= usize::MAX);
            lemma_layout_nonneg(params@.take(i + 1));
        }
        offset = next_multiple_of_usize(offset, params[i].0);
        offset = offset + params[i].1;
        i += 1;
    }
    proof {
        lemma_max_align(params@, idx as int);
        assert(layout_end(params@.take(idx as int)) + max_align(params@) <= usize::MAX);
    }
    (next_multiple_of_usize(offset, params[idx].0), params[idx].1)
}

/// Each parameter of the layout starts at a multiple of its alignment, after the end of the
/// previous parameter, and ends no later than the total size of the buffer
pub proof fn lemma_parameters_aligned_and_disjoint(params: Seq<(usize, usize)>, i: int, j: int)
    requires
        aligns_positive(params),
        0 <= i < j < params.len(),
    ensures
        param_offset(params, i) % (params[i].0 as int) == 0,
        param_offset(params, i) + params[i].1 <= param_offset(params, j),
        param_offset(params, j) + params[j].1 <= layout_end(params),
    decreases j - i,
{
    lemma_layout_monotone(params, i);
    lemma_layout_monotone(params, j);
    lemma_layout_prefix_monotone(params, i + 1, j);
    lemma_layout_prefix_monotone(params, j + 1, params.len() as int);
    assert(params.take(params.len() as int) =~= params);
}

proof fn lemma_layout_prefix_monotone(params: Seq<(usize, usize)>, a: int, b: int)
    requires
        aligns_positive(params),
        0 <= a <= b <= params.len(),
    ensures
        layout_end(params.take(a)) <= layout_end(params.take(b)),
    decreases b - a,
{
    if a < b {
        lemma_layout_prefix_monotone(params, a, b - 1);
        lemma_layout_monotone(params, b - 1);
    }
}


/// The size of the uniform buffer of a bind group: none when its parameters take no
/// space, else the size of their layout rounded up to the copy alignment
pub fn uniform_buffer_size(params: &Vec<(usize, usize)>) -> (r: Option<usize>)
    requires
        aligns_positive(params@),
        layout_fits(params@, usize::MAX - 4),
    ensures
        layout_end(params@) == 0 ==> r is None,
        layout_end(params@) != 0 ==> r == Some(round_up(layout_end(params@), 4) as usize),
{
    proof {
        assert forall|k: int| 0 <= k <= params@.len() implies layout_end(#[trigger] params@.take(k)) + max_align(params@) <= usize::MAX by {}
        assert(params@.take(params@.len() as int) =~= params@);
        lemma_max_align_nonneg(params@);
    }
    let total = total_buffer_size(params);
    if total == 0 {
        None
    } else {
        Some(next_multiple_of_usize(total, 4))
    }
}

proof fn lemma_max_align_nonneg(params: Seq<(usize, usize)>)
    ensures
        max_align(params) >= 0,
    decreases params.len(),
{
    if params.len() > 0 {
        lemma_max_align_nonneg(params.drop_last());
    }
}

/// Where a parameter of a bind group is kept: among the buffer parameters or among the
/// opaque ones, at the given position
#[derive(Debug, Clone, Copy, PartialEq, Eq, Structural, Hash)]
pub enum ParamIndex {
    /// A parameter in the uniform buffer
    Buffer(u16),
    /// An opaque parameter (texture, sampler)
    Opaque(u16),
}

/// An error while trying to set a bind group parameter
#[derive(Debug, Clone, PartialEq, Eq)]
pub enum SetParamErr {
    /// Unknown parameter
    UnknownParameter(String),
    /// Invalid type conversion
    InvalidConversion {
        /// Source type
        from: &'static str,
        /// Target type
        to: &'static str,
    },
}

/// The parameters of a bind group by name, each with where it is kept
pub struct BindGroupParams {
    /// The parameters, in declaration order
    pub params: Vec<(String, ParamIndex)>,
}

/// How many of the first `k` declared parameters are buffer parameters
pub open spec fn buffers_before(params: Seq<(String, bool)>, k: int) -> nat
    decreases k,
{
    if k <= 0 {
        0
    } else {
        buffers_before(params, k - 1) + if params[k - 1].1 { 1nat } else { 0nat }
    }
}

proof fn lemma_buffers_before_bound(params: Seq<(String, bool)>, k: int)
    requires
        0 <= k,
    ensures
        buffers_before(params, k) <= k,
    decreases k,
{
    if k > 0 {
        lemma_buffers_before_bound(params, k - 1);
    }
}

/// Parameter names are distinct
pub open spec fn names_distinct(params: Seq<(String, bool)>) -> bool {
    forall|i: int, j: int| 0 <= i < j < params.len() ==> (#[trigger] params[i]).0@ != (#[trigger] params[j]).0@
}

impl BindGroupParams {
    /// Lays out the declared parameters, each given by its name and whether it is a buffer
    /// parameter: buffer parameters are numbered in order among themselves, and so are the
    /// opaque ones. Parameter names must be distinct
    pub fn new(declared: &Vec<(String, bool)>) -> (r: Self)
        requires
            names_distinct(declared@),
            declared@.len() <= u16::MAX,
        ensures
            r.params@.len() == declared@.len(),
            forall|k: int| 0 <= k < declared@.len() ==> {
                &&& (#[trigger] r.params@[k]).0@ == declared@[k].0@
                &&& r.params@[k].1 == if declared@[k].1 {
                    ParamIndex::Buffer(buffers_before(declared@, k) as u16)
                } else {
                    ParamIndex::Opaque((k - buffers_before(declared@, k)) as u16)
                }
            },
    {
        let mut params: Vec<(String, ParamIndex)> = Vec::new();
        let mut buffers: u16 = 0;
        let mut opaques: u16 = 0;
        let mut k: usize = 0;
        while k < declared.len()
            invariant
                0 <= k <= declared@.len(),
                declared@.len() <= u16::MAX,
                params@.len() == k,
                buffers == buffers_before(declared@, k as int),
                opaques == k - buffers_before(declared@, k as int),
                forall|j: int| 0 <= j < k ==> {
                    &&& (#[trigger] params@[j]).0@ == declared@[j].0@
                    &&& params@[j].1 == if declared@[j].1 {
                        ParamIndex::Buffer(buffers_before(declared@, j) as u16)
                    } else {
                        ParamIndex::Opaque((j - buffers_before(declared@, j)) as u16)
                    }
                },
            decreases declared.len() - k,
        {
            proof {
                lemma_buffers_before_bound(declared@, k as int);
            }
            let name = declared[k].0.clone();
            let index = if declared[k].1 {
                let i = ParamIndex::Buffer(buffers);
                buffers = buffers + 1;
                i
            } else {
                let i = ParamIndex::Opaque(opaques);
                opaques = opaques + 1;
                i
            };
            params.push((name, index));
            k += 1;
        }
        BindGroupParams { params }
    }

    /// Returns where the named parameter is kept, or [SetParamErr::UnknownParameter] with
    /// the name when there is no such parameter
    pub fn lookup(&self, param: &str) -> (r: Result<ParamIndex, SetParamErr>)
        ensures
            match r {
                Ok(i) => exists|k: int| 0 <= k < self.params@.len() && (#[trigger] self.params@[k]).0@ == param@ && self.params@[k].1 == i,
                Err(e) => (forall|k: int| 0 <= k < self.params@.len() ==> (#[trigger] self.params@[k]).0@ != param@)
                    && (e matches SetParamErr::UnknownParameter(name) && name@ == param@),
            },
    {
        let mut k: usize = 0;
        while k < self.params.len()
            invariant
                0 <= k <= self.params@.len(),
                forall|j: int| 0 <= j < k ==> (#[trigger] self.params@[j]).0@ != param@,
            decreases self.params.len() - k,
        {
            if crate::logger::str_eq(self.params[k].0.as_str(), param) {
                return Ok(self.params[k].1);
            }
            k += 1;
        }
        Err(SetParamErr::UnknownParameter(param.to_owned()))
    }
}

} // verus!
