//! The persisted board image: a little-endian `u32` width and height,
//! followed by every cell word in row-major order. Parsing is exact about
//! its two failure modes: a short image, and a dimension mismatch.

use vstd::prelude::*;
use vstd::bytes::{
    spec_u32_from_le_bytes, spec_u32_to_le_bytes, spec_u64_from_le_bytes, spec_u64_to_le_bytes,
    u32_from_le_bytes, u32_to_le_bytes, u64_from_le_bytes, u64_to_le_bytes,
    lemma_auto_spec_u32_to_from_le_bytes, lemma_auto_spec_u64_to_from_le_bytes,
};
use vstd::slice::slice_subrange;

use crate::grid::{Grid, same_shape};

verus! {

/// Why a stored board image was rejected.
#[derive(Clone, Copy, Debug, PartialEq, Eq, Structural)]
pub enum GridError {
    /// The image ends before the bytes that were needed next.
    TooShort { needed: usize, len: usize },
    /// The stored dimensions are not the dimensions of this board.
    WrongDimensions { file_width: u32, file_height: u32, width: u32, height: u32 },
}

/// What loading `data` into a board shaped like `g` yields: the stored cell
/// words, or the exact error the image deserves.
pub open spec fn spec_load(g: Grid, data: Seq<u8>) -> Result<Seq<u64>, GridError> {
    if data.len() < 8 {
        Err(GridError::TooShort { needed: 8, len: data.len() as usize })
    } else {
        let fw = spec_u32_from_le_bytes(data.subrange(0, 4));
        let fh = spec_u32_from_le_bytes(data.subrange(4, 8));
        if fw != g.width || fh != g.height {
            Err(
                GridError::WrongDimensions {
                    file_width: fw,
                    file_height: fh,
                    width: g.width as u32,
                    height: g.height as u32,
                },
            )
        } else if data.len() < 8 + 8 * g.cells@.len() {
            Err(
                GridError::TooShort {
                    needed: (8 + 8 * g.cells@.len()) as usize,
                    len: data.len() as usize,
                },
            )
        } else {
            Ok(
                Seq::new(
                    g.cells@.len(),
                    |i: int| spec_u64_from_le_bytes(data.subrange(8 + 8 * i, 16 + 8 * i)),
                ),
            )
        }
    }
}

/// The serialized image of `g`: an 8-byte dimension header and one 8-byte
/// little-endian slot per cell word.
pub open spec fn is_grid_bytes(g: Grid, out: Seq<u8>) -> bool {
    &&& out.len() == 8 + 8 * g.cells@.len()
    &&& out.subrange(0, 4) == spec_u32_to_le_bytes(g.width as u32)
    &&& out.subrange(4, 8) == spec_u32_to_le_bytes(g.height as u32)
    &&& forall|i: int|
        0 <= i < g.cells@.len() ==> #[trigger] out.subrange(8 + 8 * i, 16 + 8 * i)
            == spec_u64_to_le_bytes(g.cells@[i])
}

impl Grid {
    /// Serializes the board: the `u32` width and height, then every cell
    /// word, all little-endian.
    pub fn to_bytes(&self) -> (out: Vec<u8>)
        requires
            self.wf(),
            self.width <= u32::MAX,
            self.height <= u32::MAX,
        ensures
            is_grid_bytes(*self, out@),
    {
        let mut out = u32_to_le_bytes(self.width as u32);
        let mut hb = u32_to_le_bytes(self.height as u32);
        out.append(&mut hb);
        proof {
            assert(out@.subrange(0, 4) =~= spec_u32_to_le_bytes(self.width as u32));
            assert(out@.subrange(4, 8) =~= spec_u32_to_le_bytes(self.height as u32));
        }
        let len = self.cells.len();
        let mut k: usize = 0;
        while k < len
            invariant
                self.wf(),
                len == self.cells@.len(),
                k <= len,
                out@.len() == 8 + 8 * k,
                out@.subrange(0, 4) == spec_u32_to_le_bytes(self.width as u32),
                out@.subrange(4, 8) == spec_u32_to_le_bytes(self.height as u32),
                forall|i: int|
                    0 <= i < k ==> #[trigger] out@.subrange(8 + 8 * i, 16 + 8 * i)
                        == spec_u64_to_le_bytes(self.cells@[i]),
            decreases len - k,
        {
            let ghost pre = out@;
            let mut wb = u64_to_le_bytes(self.cells[k]);
            let ghost wbv = wb@;
            out.append(&mut wb);
            proof {
                assert(out@ == pre + wbv);
                assert(out@.subrange(0, 4) =~= pre.subrange(0, 4));
                assert(out@.subrange(4, 8) =~= pre.subrange(4, 8));
                assert forall|i: int|
                    0 <= i < k + 1 implies #[trigger] out@.subrange(8 + 8 * i, 16 + 8 * i)
                    == spec_u64_to_le_bytes(self.cells@[i]) by {
                    if i < k {
                        assert(out@.subrange(8 + 8 * i, 16 + 8 * i) =~= pre.subrange(
                            8 + 8 * i,
                            16 + 8 * i,
                        ));
                    } else {
                        assert(out@.subrange(8 + 8 * i, 16 + 8 * i) =~= wbv);
                    }
                }
            }
            k += 1;
        }
        out
    }

    /// Replaces the board's cells with the words stored in `data`; fails
    /// without touching the board when the image is short or was saved from
    /// a board of other dimensions.
    pub fn from_bytes(&mut self, data: &[u8]) -> (r: Result<(), GridError>)
        requires
            old(self).wf(),
            old(self).width <= u32::MAX,
            old(self).height <= u32::MAX,
        ensures
            final(self).wf(),
            same_shape(*old(self), *final(self)),
            match spec_load(*old(self), data@) {
                Ok(ws) => r is Ok && final(self).cells@ == ws,
                Err(e) => r == Err::<(), GridError>(e) && *final(self) == *old(self),
            },
    {
        if data.len() < 8 {
            return Err(GridError::TooShort { needed: 8, len: data.len() });
        }
        let fw = u32_from_le_bytes(slice_subrange(data, 0, 4));
        let fh = u32_from_le_bytes(slice_subrange(data, 4, 8));
        if (fw as usize) != self.width || (fh as usize) != self.height {
            return Err(
                GridError::WrongDimensions {
                    file_width: fw,
                    file_height: fh,
                    width: self.width as u32,
                    height: self.height as u32,
                },
            );
        }
        let len = self.cells.len();
        proof {
            assert(1 <= len) by (nonlinear_arith)
                requires
                    len == self.stride * self.height,
                    1 <= self.stride,
                    1 <= self.height,
            ;
            assert(8 + 8 * len <= 64 * len);
        }
        let needed = 8 + 8 * len;
        if data.len() < needed {
            return Err(GridError::TooShort { needed, len: data.len() });
        }
        let mut k: usize = 0;
        while k < len
            invariant
                self.wf(),
                same_shape(*old(self), *self),
                len == self.cells@.len(),
                k <= len,
                data@.len() >= 8 + 8 * len,
                forall|i: int|
                    0 <= i < k ==> self.cells@[i] == spec_u64_from_le_bytes(
                        #[trigger] data@.subrange(8 + 8 * i, 16 + 8 * i),
                    ),
            decreases len - k,
        {
            let w = u64_from_le_bytes(slice_subrange(data, 8 + 8 * k, 16 + 8 * k));
            self.cells.set(k, w);
            k += 1;
        }
        proof {
            let ws = spec_load(*old(self), data@)->Ok_0;
            assert(self.cells@ =~= ws);
        }
        Ok(())
    }
}

/// Round-trip persistence: the serialized image of a board loads, into any
/// well-formed board of the same dimensions, exactly the original cell
/// words.
pub proof fn lemma_save_load_roundtrip(g: Grid, h: Grid, out: Seq<u8>)
    requires
        g.wf(),
        g.width <= u32::MAX,
        g.height <= u32::MAX,
        h.wf(),
        h.width == g.width,
        h.height == g.height,
        is_grid_bytes(g, out),
    ensures
        spec_load(h, out) == Ok::<Seq<u64>, GridError>(g.cells@),
{
    lemma_auto_spec_u32_to_from_le_bytes();
    lemma_auto_spec_u64_to_from_le_bytes();
    assert(h.cells@.len() == g.cells@.len());
    assert(out.len() >= 8);
    assert(spec_u32_to_le_bytes(g.width as u32).len() == 4);
    assert(spec_u32_to_le_bytes(g.height as u32).len() == 4);
    assert(spec_u32_from_le_bytes(out.subrange(0, 4)) == g.width as u32);
    assert(spec_u32_from_le_bytes(out.subrange(4, 8)) == g.height as u32);
    let ws = spec_load(h, out)->Ok_0;
    assert forall|i: int| 0 <= i < g.cells@.len() implies ws[i] == g.cells@[i] by {
        assert(out.subrange(8 + 8 * i, 16 + 8 * i) == spec_u64_to_le_bytes(g.cells@[i]));
    }
    assert(ws =~= g.cells@);
}

} // verus!
