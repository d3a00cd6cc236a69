//! Work on whole buffers: casts, fills, and plain matrix arithmetic.

use vstd::prelude::*;

use crate::io::device::{
    line_launch, plane_launch, tile_area, tileable, tiles, DeviceSlice, GpuContext, Kernel,
    KernelArg, LaunchConfig, OpView,
};
use crate::util::log::{refusal, to_u32, Error, ErrorView};
use crate::util::precision::{Precision, PrecisionType};

verus! {

/// Why a buffer of `from` cannot be cast into a buffer of `to`. The sizes are looked at first.
pub open spec fn cast_refusal(from: Precision, src: DeviceSlice, to: Precision, dst: DeviceSlice)
    -> Option<ErrorView> {
    if src.len != dst.len {
        Some(
            ErrorView::MismatchedDimensions {
                reason: "GPU precision cast source vs destination buffer sizes"@,
                expected: dst.len,
                found: src.len,
            },
        )
    } else if src.len > u32::MAX {
        Some(ErrorView::IntConversion)
    } else if from == to {
        Some(ErrorView::UnsupportedTypeCast { from, to })
    } else {
        None
    }
}

/// The launch that casts a buffer into one of the other precision.
pub open spec fn cast_ops(tile_dim: u32, from: Precision, src: DeviceSlice, dst: DeviceSlice)
    -> Seq<OpView> {
    seq![
        OpView::Launch {
            kernel: if from == Precision::FP32 {
                Kernel::CastF32ToF16
            } else {
                Kernel::CastF16ToF32
            },
            precision: from,
            args: seq![
                KernelArg::Tensor(src.tensor),
                KernelArg::Tensor(dst.tensor),
                KernelArg::U32(src.len as u32),
            ],
            config: line_launch(tile_dim, tiles(src.len as int, tile_area(tile_dim)), 0),
        },
    ]
}

/// The launch that sets every number of a buffer to one value.
pub open spec fn broadcast_ops(tile_dim: u32, precision: Precision, dst: DeviceSlice, pattern: u32)
    -> Seq<OpView> {
    seq![
        OpView::Launch {
            kernel: Kernel::Broadcast,
            precision,
            args: seq![
                KernelArg::Tensor(dst.tensor),
                KernelArg::Scalar { precision, pattern },
                KernelArg::U32(dst.len as u32),
            ],
            config: line_launch(tile_dim, tiles(dst.len as int, tile_area(tile_dim)), 0),
        },
    ]
}

/// Why a buffer cannot be filled.
pub open spec fn broadcast_refusal(len: usize) -> Option<ErrorView> {
    if len > u32::MAX {
        Some(ErrorView::IntConversion)
    } else {
        None
    }
}

/// The work of multiplying an `m` times `n` matrix by an `n` times `p` one.
pub open spec fn matrix_mul_ops(
    tile_dim: u32,
    precision: Precision,
    a: DeviceSlice,
    m: usize,
    n: usize,
    b: DeviceSlice,
    p: usize,
    c: DeviceSlice,
) -> Seq<OpView> {
    seq![
        OpView::Launch {
            kernel: Kernel::Gemm,
            precision,
            args: seq![
                KernelArg::Tensor(a.tensor),
                KernelArg::Tensor(b.tensor),
                KernelArg::Tensor(c.tensor),
                KernelArg::Usize(m),
                KernelArg::Usize(n),
                KernelArg::Usize(p),
                KernelArg::U32(tile_dim),
            ],
            config: plane_launch(
                tile_dim,
                p as int,
                m as int,
                (2 * tile_area(tile_dim) * precision.width()) as u32,
            ),
        },
        OpView::Synchronize,
    ]
}

/// The work of adding two `m` times `n` matrices.
pub open spec fn matrix_add_ops(
    tile_dim: u32,
    precision: Precision,
    a: DeviceSlice,
    m: usize,
    n: usize,
    b: DeviceSlice,
    c: DeviceSlice,
) -> Seq<OpView> {
    seq![
        OpView::Launch {
            kernel: Kernel::Geam,
            precision,
            args: seq![
                KernelArg::Tensor(a.tensor),
                KernelArg::Tensor(b.tensor),
                KernelArg::Tensor(c.tensor),
                KernelArg::Usize(m),
                KernelArg::Usize(n),
            ],
            config: plane_launch(tile_dim, n as int, m as int, 0),
        },
        OpView::Synchronize,
    ]
}

impl GpuContext {
    /// Casts the numbers of `src` into `dst`.
    pub fn gpu_cast_t<T: PrecisionType, U: PrecisionType>(
        &mut self,
        src: DeviceSlice,
        dst: DeviceSlice,
    ) -> (r: Result<(), Error>)
        requires
            old(self).wf(),
            cast_refusal(T::format(), src, U::format(), dst) is None ==> tileable(
                src.len as int,
                tile_area(old(self)@.tile_dim),
            ),
        ensures
            final(self).wf(),
            refusal(r) == cast_refusal(T::format(), src, U::format(), dst),
            r is Ok ==> final(self)@ == old(self)@.then_run(
                cast_ops(old(self)@.tile_dim, T::format(), src, dst),
            ),
            r is Err ==> final(self)@ == old(self)@,
    {
        broadcast use GpuContext::lemma_tile;

        if src.len != dst.len {
            return Err(
                Error::MismatchedDimensions {
                    reason: "GPU precision cast source vs destination buffer sizes",
                    expected: dst.len,
                    found: src.len,
                },
            );
        }
        let len: u32 = to_u32(src.len)?;
        let kernel = if T::precision() == Precision::FP32 && U::precision() == Precision::FP16 {
            Kernel::CastF32ToF16
        } else if T::precision() == Precision::FP16 && U::precision() == Precision::FP32 {
            Kernel::CastF16ToF32
        } else {
            return Err(Error::UnsupportedTypeCast { from: T::precision(), to: U::precision() });
        };
        let args = vec![
            KernelArg::Tensor(src.tensor),
            KernelArg::Tensor(dst.tensor),
            KernelArg::U32(len),
        ];
        let blocks: u32 = (len + self.get_tile_dim_2_minus_1()) / self.get_tile_dim_2();
        let config = LaunchConfig {
            grid_dim: (blocks, 1, 1),
            block_dim: (self.get_tile_dim_2(), 1, 1),
            shared_mem_bytes: 0,
        };
        self.launch(kernel, T::precision(), args, config);
        Ok(())
    }

    /// Sets every number of `dst` to `v`.
    pub fn gpu_broadcast<T: PrecisionType>(&mut self, dst: DeviceSlice, v: T) -> (r: Result<
        (),
        Error,
    >)
        requires
            old(self).wf(),
            tileable(dst.len as int, tile_area(old(self)@.tile_dim)),
        ensures
            final(self).wf(),
            refusal(r) == broadcast_refusal(dst.len),
            r is Ok ==> final(self)@ == old(self)@.then_run(
                broadcast_ops(old(self)@.tile_dim, T::format(), dst, v.pattern()),
            ),
            r is Err ==> final(self)@ == old(self)@,
    {
        broadcast use GpuContext::lemma_tile;

        let len: u32 = to_u32(dst.len)?;
        let args = vec![
            KernelArg::Tensor(dst.tensor),
            KernelArg::Scalar { precision: T::precision(), pattern: v.to_pattern() },
            KernelArg::U32(len),
        ];
        let blocks: u32 = (len + self.get_tile_dim_2_minus_1()) / self.get_tile_dim_2();
        let config = LaunchConfig {
            grid_dim: (blocks, 1, 1),
            block_dim: (self.get_tile_dim_2(), 1, 1),
            shared_mem_bytes: 0,
        };
        self.launch(Kernel::Broadcast, T::precision(), args, config);
        Ok(())
    }

    /// General matrix multiplication: `c = a * b`, with `a` of `m` rows and `n` columns and `b` of
    /// `n` rows and `p` columns.
    pub fn gpu_matrix_mul<T: PrecisionType>(
        &mut self,
        a: DeviceSlice,
        m: usize,
        n: usize,
        b: DeviceSlice,
        p: usize,
        c: DeviceSlice,
    ) -> (r: Result<(), Error>)
        requires
            old(self).wf(),
            2 * tile_area(old(self)@.tile_dim) * T::format().width() <= u32::MAX,
            tileable(p as int, old(self)@.tile_dim as int),
            p <= u32::MAX ==> tileable(m as int, old(self)@.tile_dim as int),
        ensures
            final(self).wf(),
            refusal(r) == if p > u32::MAX || m > u32::MAX {
                Some(ErrorView::IntConversion)
            } else {
                None
            },
            r is Ok ==> final(self)@ == old(self)@.then_run(
                matrix_mul_ops(old(self)@.tile_dim, T::format(), a, m, n, b, p, c),
            ),
            r is Err ==> final(self)@ == old(self)@,
    {
        broadcast use GpuContext::lemma_tile;

        let args = vec![
            KernelArg::Tensor(a.tensor),
            KernelArg::Tensor(b.tensor),
            KernelArg::Tensor(c.tensor),
            KernelArg::Usize(m),
            KernelArg::Usize(n),
            KernelArg::Usize(p),
            KernelArg::U32(self.get_tile_dim()),
        ];
        let width: u32 = to_u32(T::precision().size_bytes())?;
        let area: u32 = self.get_tile_dim_2();
        assert(2 * area <= 2 * area * width) by (nonlinear_arith)
            requires
                width >= 1,
        ;
        let config = self.calculate_cfg2d(p, m, 2 * area * width)?;
        self.launch(Kernel::Gemm, T::precision(), args, config);
        self.synchronize();
        Ok(())
    }

    /// General matrix addition: `c = a + b`, all of `m` rows and `n` columns.
    pub fn gpu_matrix_add<T: PrecisionType>(
        &mut self,
        a: DeviceSlice,
        m: usize,
        n: usize,
        b: DeviceSlice,
        c: DeviceSlice,
    ) -> (r: Result<(), Error>)
        requires
            old(self).wf(),
            tileable(n as int, old(self)@.tile_dim as int),
            n <= u32::MAX ==> tileable(m as int, old(self)@.tile_dim as int),
        ensures
            final(self).wf(),
            refusal(r) == if n > u32::MAX || m > u32::MAX {
                Some(ErrorView::IntConversion)
            } else {
                None
            },
            r is Ok ==> final(self)@ == old(self)@.then_run(
                matrix_add_ops(old(self)@.tile_dim, T::format(), a, m, n, b, c),
            ),
            r is Err ==> final(self)@ == old(self)@,
    {
        let args = vec![
            KernelArg::Tensor(a.tensor),
            KernelArg::Tensor(b.tensor),
            KernelArg::Tensor(c.tensor),
            KernelArg::Usize(m),
            KernelArg::Usize(n),
        ];
        let config = self.calculate_cfg2d(n, m, 0)?;
        self.launch(Kernel::Geam, T::precision(), args, config);
        self.synchronize();
        Ok(())
    }
}

} // verus!
