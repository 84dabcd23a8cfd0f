//! Write-back of experiment objects' attributes after a kernel finishes.
use vstd::prelude::*;

verus! {

/// One attribute of a type: where it lies in an object, its RPC type tag
/// (empty when it is not written back) and its name.
pub struct Attribute {
    pub offset: usize,
    pub tag: Vec<u8>,
    pub name: Vec<u8>,
}

/// A type exported by the kernel image: its live objects (by address) and
/// its attributes.
pub struct TypeInfo {
    pub objects: Vec<usize>,
    pub attributes: Vec<Attribute>,
}

/// One asynchronous call of the write-back: the object, the attribute (by
/// its type's and its own index) and the attribute's current address.
#[derive(Clone, Copy, Debug, PartialEq, Eq, Structural)]
pub struct WritebackCall {
    pub type_index: usize,
    pub attribute_index: usize,
    pub object: usize,
    pub address: usize,
}

/// An address `offset` bytes past `object`, as the machine computes it.
pub open spec fn field_address(object: usize, offset: usize) -> usize {
    if object + offset > usize::MAX {
        (object + offset - (usize::MAX + 1)) as usize
    } else {
        (object + offset) as usize
    }
}

/// The calls for object `object` of type `ti`, over its first `n`
/// attributes, in order, skipping those without a tag.
pub open spec fn attribute_calls(ti: int, t: TypeInfo, object: usize, n: int) -> Seq<WritebackCall>
    decreases n,
{
    if n <= 0 {
        Seq::empty()
    } else {
        let before = attribute_calls(ti, t, object, n - 1);
        let a = t.attributes@[n - 1];
        if a.tag@.len() > 0 {
            before.push(
                WritebackCall {
                    type_index: ti as usize,
                    attribute_index: (n - 1) as usize,
                    object,
                    address: field_address(object, a.offset),
                },
            )
        } else {
            before
        }
    }
}

/// The calls for the first `n` objects of type `ti`.
pub open spec fn object_calls(ti: int, t: TypeInfo, n: int) -> Seq<WritebackCall>
    decreases n,
{
    if n <= 0 {
        Seq::empty()
    } else {
        object_calls(ti, t, n - 1) + attribute_calls(ti, t, t.objects@[n - 1], t.attributes@.len() as int)
    }
}

/// The calls for the first `n` types: type by type, object by object,
/// attribute by attribute.
pub open spec fn writeback_calls(types: Seq<TypeInfo>, n: int) -> Seq<WritebackCall>
    decreases n,
{
    if n <= 0 {
        Seq::empty()
    } else {
        writeback_calls(types, n - 1) + object_calls(n - 1, types[n - 1], types[n - 1].objects@.len() as int)
    }
}

/// The asynchronous calls that write back every tagged attribute of every
/// live object, in table order.
pub fn attribute_writeback(types: &Vec<TypeInfo>) -> (r: Vec<WritebackCall>)
    ensures
        r@ == writeback_calls(types@, types@.len() as int),
{
    let mut calls: Vec<WritebackCall> = Vec::new();
    let mut ti: usize = 0;
    while ti < types.len()
        invariant
            ti <= types@.len(),
            calls@ == writeback_calls(types@, ti as int),
        decreases types@.len() - ti,
    {
        let t = &types[ti];
        let mut oi: usize = 0;
        while oi < t.objects.len()
            invariant
                ti < types@.len(),
                *t == types@[ti as int],
                oi <= t.objects@.len(),
                calls@ == writeback_calls(types@, ti as int) + object_calls(ti as int, *t, oi as int),
            decreases t.objects@.len() - oi,
        {
            let object = t.objects[oi];
            let ghost base = calls@;
            let mut ai: usize = 0;
            while ai < t.attributes.len()
                invariant
                    ti < types@.len(),
                    *t == types@[ti as int],
                    oi < t.objects@.len(),
                    object == t.objects@[oi as int],
                    ai <= t.attributes@.len(),
                    calls@ == base + attribute_calls(ti as int, *t, object, ai as int),
                decreases t.attributes@.len() - ai,
            {
                let a = &t.attributes[ai];
                let ghost prev = attribute_calls(ti as int, *t, object, ai as int);
                if a.tag.len() > 0 {
                    let call = WritebackCall {
                        type_index: ti,
                        attribute_index: ai,
                        object,
                        address: object.wrapping_add(a.offset),
                    };
                    calls.push(call);
                    assert(calls@ =~= base + prev.push(call));
                }
                ai = ai + 1;
            }
            oi = oi + 1;
            assert(calls@ == writeback_calls(types@, ti as int) + object_calls(ti as int, *t, oi as int));
        }
        ti = ti + 1;
        assert(calls@ == writeback_calls(types@, ti as int));
    }
    calls
}

} // verus!
