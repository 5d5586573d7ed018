//! The buffer resource: one memory allocation and one buffer handle, owned
//! together, with a byte-exact model of its host-visible contents.
//!
//! The model keeps the mapped backing range as plain bytes. Mapping, flushing
//! and unmapping are the driver's work and happen outside the library; every
//! copy that decides what those bytes are is specified and verified here.

use vstd::prelude::*;

use crate::bytes::{bytes_words, lemma_words_bytes_len, lemma_words_roundtrip, words_bytes,
    decode_words, encode_words};
use crate::memory::{memory_type_index, type_usable, MemoryType, MEMORY_HOST_VISIBLE};

verus! {

/// Why a resource cannot be constructed.
#[derive(Clone, Copy, Debug, PartialEq, Eq, Structural)]
pub enum ResourceError {
    /// No memory type in the device's table is admitted by the capability
    /// mask and covers the required property flags. Fatal: no resource is
    /// produced.
    NoCompatibleMemoryType,
}

/// Replacing `d.len()` bytes of `s` at `off` by `d`.
pub open spec fn splice(s: Seq<u8>, off: int, d: Seq<u8>) -> Seq<u8> {
    s.take(off) + d + s.skip(off + d.len())
}

/// The backing bytes after the first `k` steps of a strided copy: step `j`
/// writes element `j` of `data` (`es` bytes starting at `j * es`) at byte
/// offset `j * stride` of the backing.
pub open spec fn strided_copy(
    s: Seq<u8>,
    data: Seq<u8>,
    es: int,
    stride: int,
    k: int,
) -> Seq<u8>
    decreases k,
{
    if k <= 0 {
        s
    } else {
        splice(
            strided_copy(s, data, es, stride, k - 1),
            (k - 1) * stride,
            data.subrange((k - 1) * es, (k - 1) * es + es),
        )
    }
}

/// How many stride-sized steps cover a content range.
pub open spec fn strided_steps(content: int, stride: int) -> int {
    (content + stride - 1) / stride
}

/// With `stride == es` the strided copy lays the consumed data down densely:
/// after `k` steps the first `k * es` bytes are the data and the rest is
/// untouched.
pub proof fn lemma_dense_strided_copy(s: Seq<u8>, data: Seq<u8>, es: int, k: int)
    requires
        es > 0,
        k >= 0,
        k * es <= data.len(),
        k * es <= s.len(),
    ensures
        strided_copy(s, data, es, es, k) =~= data.take(k * es) + s.skip(k * es),
    decreases k,
{
    if k == 0 {
        assert(k * es == 0) by (nonlinear_arith)
            requires k == 0;
        assert(strided_copy(s, data, es, es, k) =~= data.take(k * es) + s.skip(k * es));
    } else {
        let o = (k - 1) * es;
        assert((k - 1) * es >= 0 && (k - 1) * es + es == k * es) by (nonlinear_arith)
            requires es > 0, k >= 1;
        assert(o >= 0 && o + es == k * es && o <= k * es);
        lemma_dense_strided_copy(s, data, es, k - 1);
        let prev = strided_copy(s, data, es, es, k - 1);
        let d = data.subrange(o, o + es);
        let res = strided_copy(s, data, es, es, k);
        assert(res == splice(prev, o, d));
        assert(prev.len() == s.len());
        assert(res.len() == s.len());
        assert forall|i: int| 0 <= i < s.len() implies res[i] == (data.take(k * es) + s.skip(
            k * es,
        ))[i] by {
            if i < o {
                assert(res[i] == prev.take(o)[i]);
                assert(prev[i] == (data.take(o) + s.skip(o))[i]);
            } else if i < o + es {
                assert(res[i] == d[i - o]);
            } else {
                assert(res[i] == prev.skip(o + es)[i - (o + es)]);
                assert(prev[i] == (data.take(o) + s.skip(o))[i]);
            }
        }
        assert(res =~= data.take(k * es) + s.skip(k * es));
    }
}

/// Copies `len` bytes of `src`, starting at `start`, into `dst` at `off`;
/// every other byte of `dst` keeps its value.
fn write_range(dst: &mut Vec<u8>, off: usize, src: &[u8], start: usize, len: usize)
    requires
        off + len <= old(dst)@.len(),
        start + len <= src@.len(),
    ensures
        final(dst)@ == splice(old(dst)@, off as int, src@.subrange(start as int, start + len)),
{
    let ghost orig = dst@;
    let sn = src.len();
    let dn = dst.len();
    let mut j: usize = 0;
    while j < len
        invariant
            off + len <= orig.len(),
            start + len <= sn == src@.len(),
            dn == orig.len(),
            j <= len,
            dst@.len() == orig.len(),
            dst@ == orig.take(off as int) + src@.subrange(start as int, start + j) + orig.skip(
                off + j,
            ),
        decreases len - j,
    {
        let ghost prev = dst@;
        let x = src[start + j];
        dst[off + j] = x;
        proof {
            assert(dst@ == prev.update(off + j, x));
            assert forall|i: int| 0 <= i < dst@.len() implies dst@[i] == (orig.take(off as int)
                + src@.subrange(start as int, start + j + 1) + orig.skip(off + j + 1))[i] by {
                if i < off {
                    assert(prev[i] == orig.take(off as int)[i]);
                } else if i < off + j {
                    assert(prev[i] == src@.subrange(start as int, start + j)[i - off]);
                } else if i == off + j {
                } else {
                    assert(prev[i] == orig.skip(off + j)[i - off - j]);
                }
            }
            assert(dst@ =~= orig.take(off as int) + src@.subrange(start as int, start + j + 1)
                + orig.skip(off + j + 1));
        }
        j = j + 1;
    }
    proof {
        assert(dst@ =~= splice(orig, off as int, src@.subrange(start as int, start + len)));
    }
}

/// One buffer resource: its native handle, its memory block's type index,
/// the driver-reported backing bytes, and the caller-requested content size.
/// The backing may exceed the content (alignment); never the reverse.
pub struct BufferResource {
    handle: u64,
    memory_type: u32,
    bytes: Vec<u8>,
    content_size: usize,
}

impl BufferResource {
    /// The modeled backing bytes, one per allocated byte.
    pub closed spec fn contents(&self) -> Seq<u8> {
        self.bytes@
    }

    /// The allocated backing size in bytes.
    pub closed spec fn spec_size(&self) -> int {
        self.bytes@.len() as int
    }

    /// The logical content size in bytes.
    pub closed spec fn spec_content_size(&self) -> int {
        self.content_size as int
    }

    /// The native buffer handle the resource owns.
    pub closed spec fn spec_handle(&self) -> u64 {
        self.handle
    }

    /// The memory-type index its block was allocated from.
    pub closed spec fn spec_memory_type(&self) -> u32 {
        self.memory_type
    }

    /// The allocation invariant: the backing covers the content.
    pub open spec fn wf(&self) -> bool {
        self.spec_content_size() <= self.spec_size()
    }

    /// The modeled bytes span exactly the allocated backing, and both sizes
    /// are byte counts: outside callers may take subranges of the contents
    /// up to `spec_size()` and treat `spec_content_size()` as non-negative.
    pub proof fn lemma_backing_shape(&self)
        ensures
            self.contents().len() == self.spec_size(),
            0 <= self.spec_content_size(),
            0 <= self.spec_size(),
    {
    }

    /// Everything but the backing bytes is as it was.
    pub open spec fn same_identity(&self, other: &Self) -> bool {
        &&& self.spec_handle() == other.spec_handle()
        &&& self.spec_memory_type() == other.spec_memory_type()
        &&& self.spec_size() == other.spec_size()
        &&& self.spec_content_size() == other.spec_content_size()
    }

    /// Builds the resource around a created buffer handle: resolves a memory
    /// type for the driver-reported backing size and capability mask, and
    /// models the backing as zeroed bytes. Fails exactly when no memory type
    /// is compatible; nothing partially built is ever returned.
    pub fn new(
        handle: u64,
        content_size: usize,
        allocated_size: usize,
        type_filter: u32,
        memory_types: &Vec<MemoryType>,
        required_flags: u32,
    ) -> (r: Result<Self, ResourceError>)
        requires
            content_size <= allocated_size,
            memory_types@.len() <= 32,
        ensures
            match r {
                Ok(b) => {
                    &&& b.wf()
                    &&& b.spec_handle() == handle
                    &&& b.spec_content_size() == content_size
                    &&& b.spec_size() == allocated_size
                    &&& b.contents() =~= Seq::new(allocated_size as nat, |i: int| 0u8)
                    &&& type_usable(
                        type_filter,
                        memory_types@,
                        required_flags,
                        b.spec_memory_type() as int,
                    )
                    &&& forall|j: int|
                        0 <= j < b.spec_memory_type() ==> !type_usable(
                            type_filter,
                            memory_types@,
                            required_flags,
                            j,
                        )
                },
                Err(e) => e == ResourceError::NoCompatibleMemoryType && (forall|j: int|
                    !type_usable(type_filter, memory_types@, required_flags, j)),
            },
    {
        match memory_type_index(type_filter, memory_types, required_flags) {
            Some(idx) => {
                let mut bytes: Vec<u8> = Vec::new();
                let mut i: usize = 0;
                while i < allocated_size
                    invariant
                        i <= allocated_size,
                        bytes@.len() == i,
                        forall|j: int| 0 <= j < i ==> bytes@[j] == 0u8,
                    decreases allocated_size - i,
                {
                    bytes.push(0u8);
                    i = i + 1;
                }
                Ok(
                    BufferResource {
                        handle,
                        memory_type: idx,
                        bytes,
                        content_size,
                    },
                )
            },
            None => Err(ResourceError::NoCompatibleMemoryType),
        }
    }

    /// Builds a host-visible storage buffer: the memory type must be
    /// host-visible so the contents can be mapped and written.
    pub fn new_host_visible_storage(
        handle: u64,
        content_size: usize,
        allocated_size: usize,
        type_filter: u32,
        memory_types: &Vec<MemoryType>,
    ) -> (r: Result<Self, ResourceError>)
        requires
            content_size <= allocated_size,
            memory_types@.len() <= 32,
        ensures
            match r {
                Ok(b) => {
                    &&& b.wf()
                    &&& b.spec_handle() == handle
                    &&& b.spec_content_size() == content_size
                    &&& b.spec_size() == allocated_size
                    &&& b.contents() =~= Seq::new(allocated_size as nat, |i: int| 0u8)
                    &&& type_usable(
                        type_filter,
                        memory_types@,
                        MEMORY_HOST_VISIBLE,
                        b.spec_memory_type() as int,
                    )
                    &&& forall|j: int|
                        0 <= j < b.spec_memory_type() ==> !type_usable(
                            type_filter,
                            memory_types@,
                            MEMORY_HOST_VISIBLE,
                            j,
                        )
                },
                Err(e) => e == ResourceError::NoCompatibleMemoryType && (forall|j: int|
                    !type_usable(type_filter, memory_types@, MEMORY_HOST_VISIBLE, j)),
            },
    {
        Self::new(
            handle,
            content_size,
            allocated_size,
            type_filter,
            memory_types,
            MEMORY_HOST_VISIBLE,
        )
    }

    /// The allocated backing size.
    pub fn size(&self) -> (r: u64)
        ensures
            r == self.spec_size(),
    {
        self.bytes.len() as u64
    }

    /// The logical content size.
    pub fn content_size(&self) -> (r: u64)
        ensures
            r == self.spec_content_size(),
    {
        self.content_size as u64
    }

    /// The native buffer handle.
    pub fn handle(&self) -> (r: u64)
        ensures
            r == self.spec_handle(),
    {
        self.handle
    }

    /// The memory-type index of the backing allocation.
    pub fn memory_type(&self) -> (r: u32)
        ensures
            r == self.spec_memory_type(),
    {
        self.memory_type
    }

    /// Copies `data` byte for byte to the start of the mapped backing range;
    /// the bytes beyond it keep their values.
    pub fn upload(&mut self, data: &[u8])
        requires
            data@.len() <= old(self).spec_size(),
        ensures
            final(self).contents() == data@ + old(self).contents().skip(data@.len() as int),
            final(self).same_identity(old(self)),
    {
        let n = data.len();
        write_range(&mut self.bytes, 0, data, 0, n);
        proof {
            assert(data@.subrange(0, n as int) =~= data@);
            assert(self.bytes@ =~= data@ + old(self).bytes@.skip(n as int));
        }
    }

    /// Copies `data` byte for byte into the mapped backing range starting at
    /// `offset`; every other byte keeps its value.
    pub fn upload_at(&mut self, offset: u64, data: &[u8])
        requires
            offset + data@.len() <= old(self).spec_size(),
        ensures
            final(self).contents() == splice(old(self).contents(), offset as int, data@),
            final(self).same_identity(old(self)),
    {
        let total = self.bytes.len();
        proof {
            assert(offset <= total);
        }
        let off = offset as usize;
        let n = data.len();
        write_range(&mut self.bytes, off, data, 0, n);
        proof {
            assert(data@.subrange(0, n as int) =~= data@);
        }
    }

    /// Walks the content range in `stride`-sized steps; each step copies the
    /// next `element_size`-sized element of `data` to the step's offset in
    /// the mapped backing. With an unspecified element size one byte is
    /// copied per step. Populates interleaved layouts; equal to a plain
    /// `upload` exactly when the stride is the element size and the data is
    /// densely packed.
    pub fn copy_aligned_to(&mut self, data: &[u8], element_size: Option<usize>, stride: usize)
        requires
            stride > 0,
            resolved_element_size(element_size) <= stride,
            resolved_element_size(element_size) > 0,
            strided_steps(old(self).spec_content_size(), stride as int) * resolved_element_size(
                element_size,
            ) <= data@.len(),
            old(self).spec_content_size() > 0 ==> (strided_steps(
                old(self).spec_content_size(),
                stride as int,
            ) - 1) * stride + resolved_element_size(element_size) <= old(self).spec_size(),
            old(self).wf(),
        ensures
            final(self).contents() == strided_copy(
                old(self).contents(),
                data@,
                resolved_element_size(element_size) as int,
                stride as int,
                strided_steps(old(self).spec_content_size(), stride as int),
            ),
            final(self).same_identity(old(self)),
    {
        let es: usize = match element_size {
            Some(e) => e,
            None => 1,
        };
        let ghost steps = strided_steps(old(self).spec_content_size(), stride as int);
        let content = self.content_size;
        let dlen = data.len();
        let mut offset: usize = 0;
        let mut data_index: usize = 0;
        let mut k: usize = 0;
        proof {
            if content == 0 {
                assert(steps == 0) by (nonlinear_arith)
                    requires
                        stride > 0,
                        steps == ((content as int) + stride - 1) / (stride as int),
                        content == 0,
                ;
            } else {
                assert(steps >= 1) by (nonlinear_arith)
                    requires
                        stride > 0,
                        steps == ((content as int) + stride - 1) / (stride as int),
                        content >= 1,
                ;
            }
        }
        while offset < content
            invariant
                0 < es <= stride,
                content == self.content_size,
                steps == strided_steps(content as int, stride as int),
                steps * es <= dlen,
                dlen == data@.len(),
                content > 0 ==> (steps - 1) * stride + es <= self.bytes@.len(),
                k <= steps,
                offset <= content,
                data_index == k * es,
                offset < content ==> offset == k * stride && k < steps,
                offset >= content ==> k == steps,
                self.bytes@ == strided_copy(
                    old(self).contents(),
                    data@,
                    es as int,
                    stride as int,
                    k as int,
                ),
                self.bytes@.len() == old(self).bytes@.len(),
                content <= self.bytes@.len(),
                self.content_size == old(self).content_size,
                self.handle == old(self).handle,
                self.memory_type == old(self).memory_type,
            decreases content - offset,
        {
            proof {
                assert(k < steps);
                assert(k * stride + es <= (steps - 1) * stride + es) by (nonlinear_arith)
                    requires k <= steps - 1, stride > 0;
                assert(k * es + es <= steps * es) by (nonlinear_arith)
                    requires k <= steps - 1, es > 0;
                assert(steps <= dlen) by (nonlinear_arith)
                    requires steps * es <= dlen, es >= 1, steps >= 0;
            }
            let ghost before = self.bytes@;
            write_range(&mut self.bytes, offset, data, data_index, es);
            proof {
                assert(self.bytes@ =~= strided_copy(
                    old(self).contents(),
                    data@,
                    es as int,
                    stride as int,
                    k + 1,
                ));
                assert(k <= k * stride) by (nonlinear_arith)
                    requires k >= 0, stride >= 1;
                assert((k + 1) * es == k * es + es) by (nonlinear_arith);
                if stride < content - offset {
                    assert(k + 1 < steps) by {
                        assert(((content as int) + stride - 1) / (stride as int) > k + 1) by (
                        nonlinear_arith)
                            requires
                                stride > 0,
                                (k as int) * stride + stride < content,
                        ;
                    }
                    assert((k + 1) * stride == k * stride + stride) by (nonlinear_arith);
                } else {
                    assert(k + 1 == steps) by {
                        assert(((content as int) + stride - 1) / (stride as int) == k + 1) by (
                        nonlinear_arith)
                            requires
                                stride > 0,
                                (k as int) * stride < content,
                                (k as int) * stride + stride >= content,
                        ;
                    }
                }
            }
            if stride < content - offset {
                offset = offset + stride;
            } else {
                offset = content;
            }
            data_index = data_index + es;
            k = k + 1;
        }
        proof {
            assert(k == steps);
        }
    }

    /// Copies the logical contents out of the mapped backing range: the
    /// first `content_size` bytes, in order.
    pub fn copy_data(&self) -> (r: Vec<u8>)
        requires
            self.wf(),
        ensures
            r@ == self.contents().take(self.spec_content_size()),
    {
        let n = self.content_size;
        let mut r: Vec<u8> = Vec::new();
        let mut i: usize = 0;
        while i < n
            invariant
                n == self.content_size,
                self.wf(),
                i <= n,
                r@ == self.bytes@.take(i as int),
            decreases n - i,
        {
            r.push(self.bytes[i]);
            proof {
                assert(r@ =~= self.bytes@.take(i + 1));
            }
            i = i + 1;
        }
        r
    }

    /// Uploads the data and hands the buffer back, for building a populated
    /// buffer in one expression.
    pub fn with_data(self, data: &[u8]) -> (r: Self)
        requires
            data@.len() <= self.spec_size(),
        ensures
            r.contents() == data@ + self.contents().skip(data@.len() as int),
            r.same_identity(&self),
    {
        let mut this = self;
        this.upload(data);
        this
    }

    /// Serializes the words little-endian and uploads them at the start of
    /// the backing range.
    pub fn upload_words(&mut self, words: &[u32])
        requires
            4 * words@.len() <= old(self).spec_size(),
        ensures
            final(self).contents() == words_bytes(words@) + old(self).contents().skip(
                4 * words@.len() as int,
            ),
            final(self).same_identity(old(self)),
    {
        let encoded = encode_words(words);
        proof {
            lemma_words_bytes_len(words@);
        }
        self.upload(encoded.as_slice());
    }

    /// Reads the logical contents back as whole little-endian words;
    /// trailing bytes beyond the last whole word are ignored.
    pub fn copy_data_words(&self) -> (r: Vec<u32>)
        requires
            self.wf(),
        ensures
            r@ == bytes_words(self.contents().take(self.spec_content_size())),
    {
        let data = self.copy_data();
        decode_words(data.as_slice())
    }
}

/// The element size a strided copy resolves: the given one, or a single
/// byte.
pub open spec fn resolved_element_size(element_size: Option<usize>) -> usize {
    match element_size {
        Some(e) => e,
        None => 1,
    }
}

/// Uploading a word sequence that fills the logical contents exactly and
/// copying the data back returns the original words unchanged.
pub proof fn lemma_upload_words_roundtrip(b0: BufferResource, b1: BufferResource, ws: Seq<u32>)
    requires
        b0.wf(),
        b0.spec_content_size() == 4 * ws.len() as int,
        b1.contents() == words_bytes(ws) + b0.contents().skip(4 * ws.len() as int),
        b1.same_identity(&b0),
    ensures
        bytes_words(b1.contents().take(b1.spec_content_size())) == ws,
{
    lemma_words_bytes_len(ws);
    assert(b1.contents().take(4 * ws.len() as int) =~= words_bytes(ws));
    lemma_words_roundtrip(ws);
}

/// Uploading bytes that fill the logical contents exactly and copying the
/// data back returns the original bytes unchanged.
pub proof fn lemma_upload_roundtrip(b0: BufferResource, b1: BufferResource, data: Seq<u8>)
    requires
        b0.wf(),
        b0.spec_content_size() == data.len(),
        b1.contents() == data + b0.contents().skip(data.len() as int),
        b1.same_identity(&b0),
    ensures
        b1.contents().take(b1.spec_content_size()) == data,
{
    assert(b1.contents().take(data.len() as int) =~= data);
}

/// A strided copy with the stride equal to the element size, consuming
/// exactly the logical contents' worth of densely packed data, leaves the
/// backing byte-identical to a plain upload of that data.
pub proof fn lemma_dense_copy_equals_upload(b: BufferResource, data: Seq<u8>, es: int)
    requires
        b.wf(),
        es > 0,
        b.spec_content_size() == strided_steps(b.spec_content_size(), es) * es,
        data.len() == b.spec_content_size(),
    ensures
        strided_copy(b.contents(), data, es, es, strided_steps(b.spec_content_size(), es))
            == data + b.contents().skip(data.len() as int),
{
    let steps = strided_steps(b.spec_content_size(), es);
    assert(steps >= 0) by (nonlinear_arith)
        requires
            es > 0,
            steps == (b.spec_content_size() + es - 1) / es,
            b.spec_content_size() >= 0,
    ;
    lemma_dense_strided_copy(b.contents(), data, es, steps);
    assert(data.take(steps * es) =~= data);
    assert(strided_copy(b.contents(), data, es, es, steps) =~= data + b.contents().skip(
        data.len() as int,
    ));
}

} // verus!
