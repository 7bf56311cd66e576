//! Where each mesh and each instance of the cube renderer lands in its GPU buffers.
use vstd::prelude::*;

verus! {

/// The sum of the first `n` lengths.
pub open spec fn prefix_sum(lens: Seq<usize>, n: int) -> int
    decreases n,
{
    if n <= 0 || n > lens.len() {
        0
    } else {
        prefix_sum(lens, n - 1) + lens[n - 1]
    }
}

/// A longer prefix sums to no less.
pub proof fn lemma_prefix_sum_grows(lens: Seq<usize>, i: int, j: int)
    requires
        0 <= i <= j <= lens.len(),
    ensures
        prefix_sum(lens, i) <= prefix_sum(lens, j),
    decreases j - i,
{
    if i < j {
        lemma_prefix_sum_grows(lens, i, j - 1);
    }
}

/// The offset of each mesh in a buffer that holds the meshes one after another, in order,
/// and the length they take together: each mesh starts where the ones before it end.
pub fn mesh_offsets(lens: &Vec<usize>) -> (r: (Vec<usize>, usize))
    requires
        prefix_sum(lens@, lens@.len() as int) <= usize::MAX,
    ensures
        r.0@.len() == lens@.len(),
        forall|i: int| 0 <= i < lens@.len() ==> r.0@[i] == prefix_sum(lens@, i),
        r.1 == prefix_sum(lens@, lens@.len() as int),
{
    let mut offsets: Vec<usize> = Vec::new();
    let mut offset: usize = 0;
    let mut i: usize = 0;
    while i < lens.len()
        invariant
            i <= lens@.len(),
            offsets@.len() == i,
            forall|k: int| 0 <= k < i ==> offsets@[k] == prefix_sum(lens@, k),
            offset == prefix_sum(lens@, i as int),
            prefix_sum(lens@, lens@.len() as int) <= usize::MAX,
        decreases lens@.len() - i,
    {
        offsets.push(offset);
        proof {
            lemma_prefix_sum_grows(lens@, i + 1, lens@.len() as int);
        }
        offset = offset + lens[i];
        i = i + 1;
    }
    (offsets, offset)
}

/// The byte offsets at which a mesh that starts at vertex `offset` writes its vertices,
/// normals, texture coordinates and texture ids, in a vertex buffer that holds `total`
/// vertices: the four sections follow one another, three 4-byte components per vertex and
/// normal, two per texture coordinate and one per texture id.
pub fn vertex_write_offsets(offset: usize, total: usize) -> (r: (u64, u64, u64, u64))
    requires
        12 * offset + 32 * total <= u64::MAX,
    ensures
        r.0 == 12 * offset,
        r.1 == 12 * offset + 12 * total,
        r.2 == 8 * offset + 12 * total + 12 * total,
        r.3 == 4 * offset + 12 * total + 12 * total + 8 * total,
{
    let start = offset as u64;
    let count = total as u64;
    assert(start == offset && count == total);
    let vertex_total = 4 * 3 * count;
    let normal_total = 4 * 3 * count;
    let uv_total = 4 * 2 * count;
    (4 * 3 * start, 4 * 3 * start + vertex_total, 4 * 2 * start + vertex_total + normal_total, 4 * start
        + vertex_total + normal_total + uv_total)
}

/// Where a mesh that starts at index `offset` and has `len` indices of `index_size` bytes
/// writes them, with the index count and first index of its indexed draw (each as a `u32`,
/// truncated).
pub fn index_write(offset: usize, len: usize, index_size: usize) -> (r: (u64, u32, u32))
    requires
        offset * index_size <= usize::MAX,
    ensures
        r.0 == offset * index_size,
        r.1 == len as u32,
        r.2 == offset as u32,
{
    ((offset * index_size) as u64, len as u32, offset as u32)
}

/// Where the instance `offset` writes its position, orientation and instance data, in a
/// buffer that holds each instance's three one after another (a 16-byte position, a 16-byte
/// orientation, then `instance_size` bytes); where it writes its indexed draw of
/// `indirect_size` bytes; and its first instance (as a `u32`, truncated).
pub fn instance_write_offsets(offset: u64, instance_size: u64, indirect_size: u64) -> (r: (u64, u64, u64, u64, u32))
    requires
        instance_size <= u64::MAX - 32,
        (32 + instance_size) * offset + 32 <= u64::MAX,
        indirect_size * offset <= u64::MAX,
    ensures
        r.0 == (32 + instance_size) * offset,
        r.1 == (32 + instance_size) * offset + 16,
        r.2 == (32 + instance_size) * offset + 32,
        r.3 == indirect_size * offset,
        r.4 == offset as u32,
{
    let position_size: u64 = 4 * 4;
    let orientation_size: u64 = 4 * 4;
    let total_size = position_size + orientation_size + instance_size;
    let total_offset = total_size * offset;
    (total_offset, total_offset + position_size, total_offset + position_size + orientation_size, indirect_size
        * offset, offset as u32)
}

/// The multiple of which the length of data copied into a GPU buffer must be
/// (`wgpu::COPY_BUFFER_ALIGNMENT`).
pub const COPY_BUFFER_ALIGNMENT: usize = 4;

/// `len` rounded up to the next multiple of `align`.
pub open spec fn padded(len: int, align: int) -> int {
    len + (align - len % align) % align
}

/// `len` rounded up to the next multiple of `align`: the smallest multiple of `align` that is
/// at least `len`.
pub fn padded_len(len: usize, align: usize) -> (r: usize)
    requires
        align > 0,
        padded(len as int, align as int) <= usize::MAX,
    ensures
        r == padded(len as int, align as int),
        r % align == 0,
        len <= r < len + align,
{
    let padding = (align - len % align) % align;
    proof {
        lemma_padded_aligned(len as int, align as int);
    }
    len + padding
}

/// Padding a length gives a multiple of the alignment, less than one alignment further on.
proof fn lemma_padded_aligned(len: int, align: int)
    requires
        align > 0,
        len >= 0,
    ensures
        padded(len, align) % align == 0,
        len <= padded(len, align) < len + align,
{
    let m = len % align;
    vstd::arithmetic::div_mod::lemma_fundamental_div_mod(len, align);
    if m == 0 {
        assert((align - m) % align == 0) by {
            vstd::arithmetic::div_mod::lemma_mod_self_0(align);
        }
        assert(padded(len, align) == len);
    } else {
        assert((align - m) % align == align - m) by {
            vstd::arithmetic::div_mod::lemma_small_mod((align - m) as nat, align as nat);
        }
        assert(padded(len, align) == align * (len / align) + align);
        assert(padded(len, align) == align * (len / align + 1)) by (nonlinear_arith)
            requires
                padded(len, align) == align * (len / align) + align,
        ;
        vstd::arithmetic::div_mod::lemma_mod_multiples_basic(len / align + 1, align);
        assert((len / align + 1) * align == align * (len / align + 1)) by (nonlinear_arith);
    }
}

/// Pads vertex data with default values up to a multiple of [`COPY_BUFFER_ALIGNMENT`]
/// elements; the data itself stays in front, unchanged.
pub fn align_vertex_data<T: Clone + Default>(data: Vec<T>) -> (r: Vec<T>)
    requires
        padded(data@.len() as int, COPY_BUFFER_ALIGNMENT as int) <= usize::MAX,
    ensures
        r@.len() == padded(data@.len() as int, COPY_BUFFER_ALIGNMENT as int),
        r@.subrange(0, data@.len() as int) == data@,
        forall|i: int| data@.len() <= i < r@.len() ==> call_ensures(T::default, (), #[trigger] r@[i]),
{
    let ghost original = data@;
    let target = padded_len(data.len(), COPY_BUFFER_ALIGNMENT);
    let mut data = data;
    while data.len() < target
        invariant
            target == padded(original.len() as int, COPY_BUFFER_ALIGNMENT as int),
            original.len() <= data@.len() <= target,
            data@.subrange(0, original.len() as int) == original,
            forall|i: int| original.len() <= i < data@.len() ==> call_ensures(T::default, (), #[trigger] data@[i]),
        decreases target - data@.len(),
    {
        let filler = T::default();
        let ghost before = data@;
        data.push(filler);
        proof {
            assert(data@.subrange(0, original.len() as int) =~= before.subrange(0, original.len() as int));
            assert forall|i: int| original.len() <= i < data@.len() implies call_ensures(T::default, (), #[trigger] data@[i]) by {
                if i < before.len() {
                    assert(data@[i] == before[i]);
                }
            }
        }
    }
    data
}

} // verus!
