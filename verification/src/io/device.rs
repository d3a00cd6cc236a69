//! The device side of the network: the work that is handed to the GPU, in the order in which it
//! is to be carried out.
//!
//! A [`GpuContext`] does not talk to a driver. It decides which buffers are allocated, which
//! kernels are launched, with which arguments and over which grid, and queues these decisions as
//! [`DeviceOp`]s. Whoever drives the hardware takes the queue and carries it out from the front;
//! where an operation fails there, those behind it are dropped. The buffers that a refused call has
//! reserved belong to nobody, and are given back by whoever drives the hardware.

pub mod backward_laws;
pub mod conv_device;
pub mod conv_launch_laws;
pub mod conv_laws;
pub mod ffn_device;
pub mod ffn_laws;
pub mod launch_laws;
pub mod meaning;
pub mod signature;
pub mod symbol_laws;
pub mod util_device;
pub mod util_laws;

use vstd::arithmetic::div_mod::{
    lemma_div_pos_is_pos, lemma_fundamental_div_mod, lemma_mod_bound,
};
use vstd::arithmetic::mul::{lemma_mul_inequality, lemma_mul_is_commutative};
use vstd::prelude::*;

use crate::util::init::{DrawsView, WeightDraws};
use crate::util::log::{refusal, to_u32, Error, ErrorView};
use crate::util::precision::{Precision, PrecisionType, F32};

verus! {

/// A kernel of the device code.
#[derive(Debug, Clone, Copy, PartialEq, Eq, Structural)]
pub enum Kernel {
    CastF32ToF16,
    CastF16ToF32,
    Broadcast,
    Gemm,
    Geam,
    ForwardPass0,
    ForwardPass1,
    ForwardPass2,
    Softmax,
    ComputeOutputLayerError,
    ComputeHiddenLayerError,
    BackwardPass,
    ConvForwardPass0,
    ConvForwardPass1,
    ConvForwardPass2,
    ConvFftRowTransform,
    ConvFftColTransform,
    ConvElemMulIfftRow,
    ConvIfftColTransform,
}

/// The name under which the device code holds a kernel. The four kernels that work on one fixed
/// format have one name each, the others one for each precision.
pub open spec fn kernel_symbol(kernel: Kernel, precision: Precision) -> &'static str {
    match kernel {
        Kernel::CastF32ToF16 => "cast_f32_f16_t_kernel",
        Kernel::CastF16ToF32 => "cast_f16_f32_t_kernel",
        Kernel::ConvFftColTransform => "conv_fft_col_transform_kernel",
        Kernel::ConvElemMulIfftRow => "conv_elem_mul_ifft_row_kernel",
        _ => match precision {
            Precision::FP32 => match kernel {
                Kernel::Broadcast => "broadcast_kernel_f32",
                Kernel::Gemm => "sgemm_kernel",
                Kernel::Geam => "sgeam_kernel",
                Kernel::ForwardPass0 => "forward_pass_0_f32",
                Kernel::ForwardPass1 => "forward_pass_1_f32",
                Kernel::ForwardPass2 => "forward_pass_2_f32",
                Kernel::Softmax => "softmax_kernel_f32",
                Kernel::ComputeOutputLayerError => "compute_output_layer_error_f32",
                Kernel::ComputeHiddenLayerError => "compute_hidden_layer_error_f32",
                Kernel::BackwardPass => "backward_pass_f32",
                Kernel::ConvForwardPass0 => "conv_forward_pass_0_kernel_f32",
                Kernel::ConvForwardPass1 => "conv_forward_pass_1_kernel_f32",
                Kernel::ConvForwardPass2 => "conv_forward_pass_2_kernel_f32",
                Kernel::ConvFftRowTransform => "conv_fft_row_transform_kernel_f32",
                _ => "conv_ifft_col_transform_kernel_f32",
            },
            Precision::FP16 => match kernel {
                Kernel::Broadcast => "broadcast_kernel_f16",
                Kernel::Gemm => "hgemm_kernel",
                Kernel::Geam => "hgeam_kernel",
                Kernel::ForwardPass0 => "forward_pass_0_f16",
                Kernel::ForwardPass1 => "forward_pass_1_f16",
                Kernel::ForwardPass2 => "forward_pass_2_f16",
                Kernel::Softmax => "softmax_kernel_f16",
                Kernel::ComputeOutputLayerError => "compute_output_layer_error_f16",
                Kernel::ComputeHiddenLayerError => "compute_hidden_layer_error_f16",
                Kernel::BackwardPass => "backward_pass_f16",
                Kernel::ConvForwardPass0 => "conv_forward_pass_0_kernel_f16",
                Kernel::ConvForwardPass1 => "conv_forward_pass_1_kernel_f16",
                Kernel::ConvForwardPass2 => "conv_forward_pass_2_kernel_f16",
                Kernel::ConvFftRowTransform => "conv_fft_row_transform_kernel_f16",
                _ => "conv_ifft_col_transform_kernel_f16",
            },
        },
    }
}

impl Kernel {
    /// The name under which the device code holds this kernel for a precision.
    pub fn symbol(&self, precision: Precision) -> (r: &'static str)
        ensures
            r == kernel_symbol(*self, precision),
    {
        match self {
            Kernel::CastF32ToF16 => "cast_f32_f16_t_kernel",
            Kernel::CastF16ToF32 => "cast_f16_f32_t_kernel",
            Kernel::ConvFftColTransform => "conv_fft_col_transform_kernel",
            Kernel::ConvElemMulIfftRow => "conv_elem_mul_ifft_row_kernel",
            _ => match precision {
                Precision::FP32 => match self {
                    Kernel::Broadcast => "broadcast_kernel_f32",
                    Kernel::Gemm => "sgemm_kernel",
                    Kernel::Geam => "sgeam_kernel",
                    Kernel::ForwardPass0 => "forward_pass_0_f32",
                    Kernel::ForwardPass1 => "forward_pass_1_f32",
                    Kernel::ForwardPass2 => "forward_pass_2_f32",
                    Kernel::Softmax => "softmax_kernel_f32",
                    Kernel::ComputeOutputLayerError => "compute_output_layer_error_f32",
                    Kernel::ComputeHiddenLayerError => "compute_hidden_layer_error_f32",
                    Kernel::BackwardPass => "backward_pass_f32",
                    Kernel::ConvForwardPass0 => "conv_forward_pass_0_kernel_f32",
                    Kernel::ConvForwardPass1 => "conv_forward_pass_1_kernel_f32",
                    Kernel::ConvForwardPass2 => "conv_forward_pass_2_kernel_f32",
                    Kernel::ConvFftRowTransform => "conv_fft_row_transform_kernel_f32",
                    _ => "conv_ifft_col_transform_kernel_f32",
                },
                Precision::FP16 => match self {
                    Kernel::Broadcast => "broadcast_kernel_f16",
                    Kernel::Gemm => "hgemm_kernel",
                    Kernel::Geam => "hgeam_kernel",
                    Kernel::ForwardPass0 => "forward_pass_0_f16",
                    Kernel::ForwardPass1 => "forward_pass_1_f16",
                    Kernel::ForwardPass2 => "forward_pass_2_f16",
                    Kernel::Softmax => "softmax_kernel_f16",
                    Kernel::ComputeOutputLayerError => "compute_output_layer_error_f16",
                    Kernel::ComputeHiddenLayerError => "compute_hidden_layer_error_f16",
                    Kernel::BackwardPass => "backward_pass_f16",
                    Kernel::ConvForwardPass0 => "conv_forward_pass_0_kernel_f16",
                    Kernel::ConvForwardPass1 => "conv_forward_pass_1_kernel_f16",
                    Kernel::ConvForwardPass2 => "conv_forward_pass_2_kernel_f16",
                    Kernel::ConvFftRowTransform => "conv_fft_row_transform_kernel_f16",
                    _ => "conv_ifft_col_transform_kernel_f16",
                },
            },
        }
    }
}

/// The kernels that the device code holds, each with the precision that it is loaded for, in the
/// order in which they are loaded.
pub open spec fn loaded_kernels() -> Seq<(Kernel, Precision)> {
    seq![
        (Kernel::CastF32ToF16, Precision::FP32),
        (Kernel::CastF16ToF32, Precision::FP16),
        (Kernel::Broadcast, Precision::FP32),
        (Kernel::Gemm, Precision::FP32),
        (Kernel::Geam, Precision::FP32),
        (Kernel::ForwardPass0, Precision::FP32),
        (Kernel::ForwardPass1, Precision::FP32),
        (Kernel::ForwardPass2, Precision::FP32),
        (Kernel::Softmax, Precision::FP32),
        (Kernel::ComputeOutputLayerError, Precision::FP32),
        (Kernel::ComputeHiddenLayerError, Precision::FP32),
        (Kernel::BackwardPass, Precision::FP32),
        (Kernel::Broadcast, Precision::FP16),
        (Kernel::Gemm, Precision::FP16),
        (Kernel::Geam, Precision::FP16),
        (Kernel::ForwardPass0, Precision::FP16),
        (Kernel::ForwardPass1, Precision::FP16),
        (Kernel::ForwardPass2, Precision::FP16),
        (Kernel::Softmax, Precision::FP16),
        (Kernel::ComputeOutputLayerError, Precision::FP16),
        (Kernel::ComputeHiddenLayerError, Precision::FP16),
        (Kernel::BackwardPass, Precision::FP16),
        (Kernel::ConvForwardPass0, Precision::FP32),
        (Kernel::ConvForwardPass0, Precision::FP16),
        (Kernel::ConvForwardPass1, Precision::FP32),
        (Kernel::ConvForwardPass1, Precision::FP16),
        (Kernel::ConvForwardPass2, Precision::FP32),
        (Kernel::ConvForwardPass2, Precision::FP16),
        (Kernel::ConvFftRowTransform, Precision::FP32),
        (Kernel::ConvFftRowTransform, Precision::FP16),
        (Kernel::ConvFftColTransform, Precision::FP32),
        (Kernel::ConvElemMulIfftRow, Precision::FP32),
        (Kernel::ConvIfftColTransform, Precision::FP32),
        (Kernel::ConvIfftColTransform, Precision::FP16),
    ]
}

/// The place of a kernel among those that are loaded.
pub open spec fn kernel_place(kernel: Kernel, precision: Precision) -> int {
    let full = precision == Precision::FP32;
    match kernel {
        Kernel::CastF32ToF16 => 0,
        Kernel::CastF16ToF32 => 1,
        Kernel::Broadcast => if full {
            2
        } else {
            12
        },
        Kernel::Gemm => if full {
            3
        } else {
            13
        },
        Kernel::Geam => if full {
            4
        } else {
            14
        },
        Kernel::ForwardPass0 => if full {
            5
        } else {
            15
        },
        Kernel::ForwardPass1 => if full {
            6
        } else {
            16
        },
        Kernel::ForwardPass2 => if full {
            7
        } else {
            17
        },
        Kernel::Softmax => if full {
            8
        } else {
            18
        },
        Kernel::ComputeOutputLayerError => if full {
            9
        } else {
            19
        },
        Kernel::ComputeHiddenLayerError => if full {
            10
        } else {
            20
        },
        Kernel::BackwardPass => if full {
            11
        } else {
            21
        },
        Kernel::ConvForwardPass0 => if full {
            22
        } else {
            23
        },
        Kernel::ConvForwardPass1 => if full {
            24
        } else {
            25
        },
        Kernel::ConvForwardPass2 => if full {
            26
        } else {
            27
        },
        Kernel::ConvFftRowTransform => if full {
            28
        } else {
            29
        },
        Kernel::ConvFftColTransform => 30,
        Kernel::ConvElemMulIfftRow => 31,
        Kernel::ConvIfftColTransform => if full {
            32
        } else {
            33
        },
    }
}

/// Whatever kernel is launched, the name that it goes by is one of those that are loaded.
pub proof fn law_every_kernel_is_loaded(kernel: Kernel, precision: Precision)
    ensures
        ({
            let i = kernel_place(kernel, precision);
            &&& 0 <= i < loaded_kernels().len()
            &&& kernel_symbol(loaded_kernels()[i].0, loaded_kernels()[i].1) == kernel_symbol(
                kernel,
                precision,
            )
        }),
{
}

/// The kernels that the device code has to hold, in the order in which they are loaded.
pub fn all_kernels() -> (r: Vec<(Kernel, Precision)>)
    ensures
        r@ == loaded_kernels(),
{
    let kernels: Vec<(Kernel, Precision)> = vec![
        (Kernel::CastF32ToF16, Precision::FP32),
        (Kernel::CastF16ToF32, Precision::FP16),
        (Kernel::Broadcast, Precision::FP32),
        (Kernel::Gemm, Precision::FP32),
        (Kernel::Geam, Precision::FP32),
        (Kernel::ForwardPass0, Precision::FP32),
        (Kernel::ForwardPass1, Precision::FP32),
        (Kernel::ForwardPass2, Precision::FP32),
        (Kernel::Softmax, Precision::FP32),
        (Kernel::ComputeOutputLayerError, Precision::FP32),
        (Kernel::ComputeHiddenLayerError, Precision::FP32),
        (Kernel::BackwardPass, Precision::FP32),
        (Kernel::Broadcast, Precision::FP16),
        (Kernel::Gemm, Precision::FP16),
        (Kernel::Geam, Precision::FP16),
        (Kernel::ForwardPass0, Precision::FP16),
        (Kernel::ForwardPass1, Precision::FP16),
        (Kernel::ForwardPass2, Precision::FP16),
        (Kernel::Softmax, Precision::FP16),
        (Kernel::ComputeOutputLayerError, Precision::FP16),
        (Kernel::ComputeHiddenLayerError, Precision::FP16),
        (Kernel::BackwardPass, Precision::FP16),
        (Kernel::ConvForwardPass0, Precision::FP32),
        (Kernel::ConvForwardPass0, Precision::FP16),
        (Kernel::ConvForwardPass1, Precision::FP32),
        (Kernel::ConvForwardPass1, Precision::FP16),
        (Kernel::ConvForwardPass2, Precision::FP32),
        (Kernel::ConvForwardPass2, Precision::FP16),
        (Kernel::ConvFftRowTransform, Precision::FP32),
        (Kernel::ConvFftRowTransform, Precision::FP16),
        (Kernel::ConvFftColTransform, Precision::FP32),
        (Kernel::ConvElemMulIfftRow, Precision::FP32),
        (Kernel::ConvIfftColTransform, Precision::FP32),
        (Kernel::ConvIfftColTransform, Precision::FP16),
    ];
    assert(kernels@ =~= loaded_kernels());
    kernels
}

/// One argument of a kernel launch.
#[derive(Debug, Clone, Copy, PartialEq, Eq, Structural)]
pub enum KernelArg {
    /// The buffer of a tensor, by the tensor's id.
    Tensor(usize),
    /// A 32-bit unsigned integer.
    U32(u32),
    /// A 32-bit signed integer.
    I32(i32),
    /// An integer of the width of an address.
    Usize(usize),
    /// A 32-bit floating point number.
    Real(F32),
    /// A number of the given precision, by its bit pattern.
    Scalar { precision: Precision, pattern: u32 },
}

/// The grid of a kernel launch.
#[derive(Debug, Clone, Copy, PartialEq, Eq)]
pub struct LaunchConfig {
    pub grid_dim: (u32, u32, u32),
    pub block_dim: (u32, u32, u32),
    pub shared_mem_bytes: u32,
}

/// Numbers on the host side.
#[derive(Debug)]
pub enum HostNumbers {
    /// By their bit patterns.
    Patterns(Vec<u32>),
    /// By the random words that they are made from.
    Drawn(WeightDraws),
}

/// [`HostNumbers`], with vectors taken as sequences.
pub enum HostView {
    Patterns(Seq<u32>),
    Drawn(DrawsView),
}

impl View for HostNumbers {
    type V = HostView;

    open spec fn view(&self) -> HostView {
        match *self {
            HostNumbers::Patterns(bits) => HostView::Patterns(bits@),
            HostNumbers::Drawn(draws) => HostView::Drawn(draws@),
        }
    }
}

impl HostView {
    /// How many numbers there are.
    pub open spec fn len(self) -> nat {
        match self {
            HostView::Patterns(bits) => bits.len(),
            HostView::Drawn(draws) => draws.len(),
        }
    }
}

impl HostNumbers {
    /// How many numbers there are.
    pub fn len(&self) -> (r: usize)
        ensures
            r == self@.len(),
    {
        match self {
            HostNumbers::Patterns(bits) => bits.len(),
            HostNumbers::Drawn(draws) => draws.len(),
        }
    }
}

impl HostNumbers {
    /// The same numbers once more.
    pub fn duplicate(&self) -> (r: Self)
        ensures
            r@ == self@,
    {
        match self {
            HostNumbers::Patterns(bits) => HostNumbers::Patterns(bits.clone()),
            HostNumbers::Drawn(draws) => HostNumbers::Drawn(draws.duplicate()),
        }
    }
}

/// A buffer on the device: the tensor that it belongs to, and how many numbers it holds.
#[derive(Debug, Clone, Copy, PartialEq, Eq, Structural)]
pub struct DeviceSlice {
    pub tensor: usize,
    pub len: usize,
}

/// One piece of work for the device.
#[derive(Debug)]
pub enum DeviceOp {
    /// Reserve a zeroed buffer of `len` numbers for a tensor.
    Allocate { tensor: usize, precision: Precision, len: usize },
    /// Reserve a buffer for a tensor and fill it from the host. The numbers are of the format
    /// `held` and are widened or narrowed to `precision` on the way.
    Upload { tensor: usize, precision: Precision, held: Precision, numbers: HostNumbers },
    /// Reserve a buffer for a tensor and fill it with the contents of another one's.
    Duplicate { tensor: usize, source: usize },
    /// Hand the buffer of a tensor over to another one.
    Adopt { tensor: usize, source: usize },
    /// Copy each of the planes of a tensor, of `inner` columns and rows, to the top left corner of
    /// the plane of another one, of `outer` columns and rows. What lies outside the corner stays.
    Inset {
        tensor: usize,
        source: usize,
        planes: usize,
        inner: (usize, usize),
        outer: (usize, usize),
    },
    /// Run a kernel.
    Launch { kernel: Kernel, precision: Precision, args: Vec<KernelArg>, config: LaunchConfig },
    /// Wait until everything in front of this is done.
    Synchronize,
    /// Give the buffer of a tensor back.
    Free { tensor: usize },
}

/// [`DeviceOp`], with vectors taken as sequences.
pub enum OpView {
    Allocate { tensor: usize, precision: Precision, len: usize },
    Upload { tensor: usize, precision: Precision, held: Precision, numbers: HostView },
    Duplicate { tensor: usize, source: usize },
    Adopt { tensor: usize, source: usize },
    Inset {
        tensor: usize,
        source: usize,
        planes: usize,
        inner: (usize, usize),
        outer: (usize, usize),
    },
    Launch { kernel: Kernel, precision: Precision, args: Seq<KernelArg>, config: LaunchConfig },
    Synchronize,
    Free { tensor: usize },
}

impl View for DeviceOp {
    type V = OpView;

    open spec fn view(&self) -> OpView {
        match *self {
            DeviceOp::Allocate { tensor, precision, len } => OpView::Allocate {
                tensor,
                precision,
                len,
            },
            DeviceOp::Upload { tensor, precision, held, numbers } => OpView::Upload {
                tensor,
                precision,
                held,
                numbers: numbers@,
            },
            DeviceOp::Duplicate { tensor, source } => OpView::Duplicate { tensor, source },
            DeviceOp::Adopt { tensor, source } => OpView::Adopt { tensor, source },
            DeviceOp::Inset { tensor, source, planes, inner, outer } => OpView::Inset {
                tensor,
                source,
                planes,
                inner,
                outer,
            },
            DeviceOp::Launch { kernel, precision, args, config } => OpView::Launch {
                kernel,
                precision,
                args: args@,
                config,
            },
            DeviceOp::Synchronize => OpView::Synchronize,
            DeviceOp::Free { tensor } => OpView::Free { tensor },
        }
    }
}

/// What a [`GpuContext`] stands for: the device, the tile of its kernels, the id of the next
/// tensor, and the work that is queued.
#[verifier::ext_equal]
pub struct DeviceView {
    pub ordinal: usize,
    pub tile_dim: u32,
    pub next_id: usize,
    pub queue: Seq<OpView>,
}

impl DeviceView {
    /// The device with more work at the end of its queue.
    pub open spec fn then_run(self, ops: Seq<OpView>) -> DeviceView {
        DeviceView { queue: self.queue + ops, ..self }
    }

    /// The device once the next tensor id is given out.
    pub open spec fn id_taken(self) -> DeviceView {
        DeviceView { next_id: self.next_id.wrapping_add(1), ..self }
    }
}

/// Work behind work is one piece of work.
pub broadcast proof fn lemma_then_run(d: DeviceView, a: Seq<OpView>, b: Seq<OpView>)
    ensures
        #[trigger] d.then_run(a).then_run(b) == d.then_run(a + b),
{
    assert(d.queue + a + b == d.queue + (a + b));
}

/// How many ids lie between two: from the first one up to the next one, which is not among them. Ids
/// start over behind the largest address.
pub open spec fn ids_between(first: usize, next: usize) -> nat {
    if first <= next {
        (next - first) as nat
    } else {
        (usize::MAX - first + 1 + next) as nat
    }
}

/// The buffers of `n` tensors are given back, whose ids count up from the first one.
pub open spec fn frees_from(first: usize, n: nat) -> Seq<OpView> {
    Seq::new(n, |i: int| OpView::Free { tensor: first.wrapping_add(i as usize) })
}

/// The device once the tensors that were made since an earlier time are given back.
pub open spec fn given_back(earlier: DeviceView, now: DeviceView) -> DeviceView {
    now.then_run(frees_from(earlier.next_id, ids_between(earlier.next_id, now.next_id)))
}

/// The device after a call, and why the call is refused: a refused call gives back what it has made.
pub open spec fn settled(earlier: DeviceView, outcome: (DeviceView, Option<ErrorView>)) -> (
    DeviceView,
    Option<ErrorView>,
) {
    if outcome.1 is Some {
        (given_back(earlier, outcome.0), outcome.1)
    } else {
        outcome
    }
}

/// Whatever id was given out since an earlier time is given back.
pub proof fn law_everything_is_given_back(earlier: DeviceView, now: DeviceView, id: usize)
    requires
        ids_between(earlier.next_id, id) < ids_between(earlier.next_id, now.next_id),
    ensures
        given_back(earlier, now).queue.contains(OpView::Free { tensor: id }),
{
    let k = ids_between(earlier.next_id, id) as int;
    let ops = frees_from(earlier.next_id, ids_between(earlier.next_id, now.next_id));
    assert(ops[k] == (OpView::Free { tensor: id }));
    assert(given_back(earlier, now).queue[now.queue.len() + k] == ops[k]);
}

/// The number of tiles of `tile` threads that cover `x` threads.
pub open spec fn tiles(x: int, tile: int) -> int {
    (x + tile - 1) / tile
}

/// `x` is too large for 32 bits, and refused for that, or leaves room to be rounded up to tiles.
pub open spec fn tileable(x: int, tile: int) -> bool {
    x > u32::MAX || x + tile - 1 <= u32::MAX
}

/// The launch over a plane of `x` times `y` threads.
pub open spec fn plane_launch(tile_dim: u32, x: int, y: int, mem: u32) -> LaunchConfig {
    LaunchConfig {
        grid_dim: (tiles(x, tile_dim as int) as u32, tiles(y, tile_dim as int) as u32, 1),
        block_dim: (tile_dim, tile_dim, 1),
        shared_mem_bytes: mem,
    }
}

/// The launch over `n * c` planes of `w` times `h` threads.
pub open spec fn volume_launch(tile_dim: u32, n: int, c: int, h: int, w: int, mem: u32)
    -> LaunchConfig {
    LaunchConfig {
        grid_dim: (
            tiles(w, tile_dim as int) as u32,
            tiles(h, tile_dim as int) as u32,
            (n * c) as u32,
        ),
        block_dim: (tile_dim, tile_dim, 1),
        shared_mem_bytes: mem,
    }
}

/// Tiles cover all threads, and no tile is superfluous.
pub proof fn law_tiles_cover(x: int, tile: int)
    requires
        0 <= x,
        1 <= tile,
    ensures
        x <= tiles(x, tile) * tile < x + tile,
        0 <= tiles(x, tile) <= x,
{
    let q = (x + tile - 1) / tile;
    lemma_fundamental_div_mod(x + tile - 1, tile);
    lemma_mod_bound(x + tile - 1, tile);
    lemma_mul_is_commutative(q, tile);
    lemma_div_pos_is_pos(x + tile - 1, tile);
    if q > x {
        lemma_mul_inequality(x + 1, q, tile);
        assert((x + 1) * tile >= x + tile) by (nonlinear_arith)
            requires
                0 <= x,
                1 <= tile,
        ;
    }
}

/// The launch over a plane has a thread for every element, and less than a tile more along each side.
pub proof fn law_plane_launch_covers(tile_dim: u32, x: int, y: int, mem: u32)
    requires
        1 <= tile_dim,
        0 <= x <= u32::MAX,
        0 <= y <= u32::MAX,
    ensures
        ({
            let c = plane_launch(tile_dim, x, y, mem);
            &&& x <= c.grid_dim.0 * c.block_dim.0 < x + tile_dim
            &&& y <= c.grid_dim.1 * c.block_dim.1 < y + tile_dim
        }),
{
    law_tiles_cover(x, tile_dim as int);
    law_tiles_cover(y, tile_dim as int);
}

/// The launch over planes has a thread for every element of every plane, and less than a tile more
/// along each side of a plane.
pub proof fn law_volume_launch_covers(tile_dim: u32, n: int, c: int, h: int, w: int, mem: u32)
    requires
        1 <= tile_dim,
        0 <= h <= u32::MAX,
        0 <= w <= u32::MAX,
        0 <= n * c <= u32::MAX,
    ensures
        ({
            let l = volume_launch(tile_dim, n, c, h, w, mem);
            &&& w <= l.grid_dim.0 * l.block_dim.0 < w + tile_dim
            &&& h <= l.grid_dim.1 * l.block_dim.1 < h + tile_dim
            &&& l.grid_dim.2 * l.block_dim.2 == n * c
        }),
{
    law_tiles_cover(w, tile_dim as int);
    law_tiles_cover(h, tile_dim as int);
}

/// The number of threads of one tile.
pub open spec fn tile_area(tile_dim: u32) -> int {
    tile_dim * tile_dim
}

/// The launch of `blocks` blocks of one tile each.
pub open spec fn line_launch(tile_dim: u32, blocks: int, mem: u32) -> LaunchConfig {
    LaunchConfig {
        grid_dim: (blocks as u32, 1, 1),
        block_dim: (tile_area(tile_dim) as u32, 1, 1),
        shared_mem_bytes: mem,
    }
}

/// The connection to a GPU device: the work that is queued for it, and what decides the shape of
/// that work.
#[derive(Debug)]
pub struct GpuContext {
    ordinal: usize,
    tile_dim: u32,
    tile_dim_minus_1: u32,
    tile_dim_2: u32,
    tile_dim_2_minus_1: u32,
    next_id: usize,
    queue: Vec<DeviceOp>,
}

impl View for GpuContext {
    type V = DeviceView;

    closed spec fn view(&self) -> DeviceView {
        DeviceView {
            ordinal: self.ordinal,
            tile_dim: self.tile_dim,
            next_id: self.next_id,
            queue: self.queue@.map_values(|op: DeviceOp| op@),
        }
    }
}

impl GpuContext {
    /// The tile holds a thread, its area fits in 32 bits, and the derived sizes are right.
    pub closed spec fn wf(&self) -> bool {
        &&& 1 <= self.tile_dim
        &&& self.tile_dim_minus_1 == self.tile_dim - 1
        &&& self.tile_dim_2 == self.tile_dim * self.tile_dim
        &&& self.tile_dim_2_minus_1 == self.tile_dim_2 - 1
    }

    /// What [`GpuContext::wf`] says of the tile.
    pub broadcast proof fn lemma_tile(&self)
        requires
            #[trigger] self.wf(),
        ensures
            1 <= self@.tile_dim,
            1 <= tile_area(self@.tile_dim) <= u32::MAX,
            self@.tile_dim <= tile_area(self@.tile_dim),
    {
        assert(1 <= self.tile_dim ==> self.tile_dim <= self.tile_dim * self.tile_dim)
            by (nonlinear_arith);
    }

    /// Connects to the first device. The ids of the tensors start at zero.
    ///
    /// # Arguments
    /// * `tile_dim` - Tile dimension, the size of each block `(tile_dim, tile_dim)`.
    ///   Recommended values are `16` or `32`.
    pub fn new(tile_dim: u32) -> (r: Self)
        requires
            1 <= tile_dim <= 0xffff,
        ensures
            r.wf(),
            r@ == (DeviceView { ordinal: 0, tile_dim, next_id: 0, queue: Seq::empty() }),
    {
        Self::with_device_index(0, tile_dim)
    }

    /// Connects to a device. The ids of the tensors start at zero.
    ///
    /// # Arguments
    /// * `ordinal` - The device index. With a single device, this is `0`.
    /// * `tile_dim` - Tile dimension, the size of each block `(tile_dim, tile_dim)`.
    ///   Recommended values are `16` or `32`.
    pub fn with_device_index(ordinal: usize, tile_dim: u32) -> (r: Self)
        requires
            1 <= tile_dim <= 0xffff,
        ensures
            r.wf(),
            r@ == (DeviceView { ordinal, tile_dim, next_id: 0, queue: Seq::empty() }),
    {
        Self::with_first_id(ordinal, tile_dim, 0)
    }

    /// Connects to a device. Where several contexts live side by side, each of them gets a first id
    /// behind the ids of the others, so that every tensor has its own.
    ///
    /// # Arguments
    /// * `ordinal` - The device index. With a single device, this is `0`.
    /// * `tile_dim` - Tile dimension, the size of each block `(tile_dim, tile_dim)`.
    ///   Recommended values are `16` or `32`.
    /// * `first_id` - The id of the first tensor.
    pub fn with_first_id(ordinal: usize, tile_dim: u32, first_id: usize) -> (r: Self)
        requires
            1 <= tile_dim <= 0xffff,
        ensures
            r.wf(),
            r@ == (DeviceView { ordinal, tile_dim, next_id: first_id, queue: Seq::empty() }),
    {
        assert(1 <= tile_dim <= 0xffff ==> 1 <= tile_dim * tile_dim <= u32::MAX)
            by (nonlinear_arith);
        let tile_dim_2: u32 = tile_dim * tile_dim;
        let r = Self {
            ordinal,
            tile_dim,
            tile_dim_minus_1: tile_dim - 1,
            tile_dim_2,
            tile_dim_2_minus_1: tile_dim_2 - 1,
            next_id: first_id,
            queue: Vec::new(),
        };
        assert(r@.queue =~= Seq::empty());
        r
    }

    /// The index of the device.
    pub fn get_ordinal(&self) -> (r: usize)
        ensures
            r == self@.ordinal,
    {
        self.ordinal
    }

    /// The id of the next tensor.
    pub fn get_next_id(&self) -> (r: usize)
        ensures
            r == self@.next_id,
    {
        self.next_id
    }

    /// The side of a tile.
    pub fn get_tile_dim(&self) -> (r: u32)
        ensures
            r == self@.tile_dim,
    {
        self.tile_dim
    }

    /// The number of threads in a tile.
    pub fn get_tile_dim_2(&self) -> (r: u32)
        requires
            self.wf(),
        ensures
            r == tile_area(self@.tile_dim),
    {
        self.tile_dim_2
    }

    /// The number of threads in a tile without one.
    pub(crate) fn get_tile_dim_2_minus_1(&self) -> (r: u32)
        requires
            self.wf(),
        ensures
            r == tile_area(self@.tile_dim) - 1,
    {
        self.tile_dim_2_minus_1
    }

    /// Takes the queued work away, in the order in which it is to be carried out.
    pub fn take_queue(&mut self) -> (r: Vec<DeviceOp>)
        requires
            old(self).wf(),
        ensures
            final(self).wf(),
            r@.map_values(|op: DeviceOp| op@) == old(self)@.queue,
            final(self)@ == (DeviceView { queue: Seq::empty(), ..old(self)@ }),
    {
        let mut taken: Vec<DeviceOp> = Vec::new();
        std::mem::swap(&mut taken, &mut self.queue);
        assert(self@.queue =~= Seq::empty());
        taken
    }

    /// Queues one piece of work.
    pub(crate) fn record(&mut self, op: DeviceOp)
        requires
            old(self).wf(),
        ensures
            final(self).wf(),
            final(self)@ == old(self)@.then_run(seq![op@]),
    {
        self.queue.push(op);
        assert(self@.queue =~= old(self)@.queue + seq![op@]);
    }

    /// Queues a kernel launch.
    pub(crate) fn launch(
        &mut self,
        kernel: Kernel,
        precision: Precision,
        args: Vec<KernelArg>,
        config: LaunchConfig,
    )
        requires
            old(self).wf(),
        ensures
            final(self).wf(),
            final(self)@ == old(self)@.then_run(
                seq![OpView::Launch { kernel, precision, args: args@, config }],
            ),
    {
        self.record(DeviceOp::Launch { kernel, precision, args, config });
    }

    /// Queues a wait.
    pub(crate) fn synchronize(&mut self)
        requires
            old(self).wf(),
        ensures
            final(self).wf(),
            final(self)@ == old(self)@.then_run(seq![OpView::Synchronize]),
    {
        self.record(DeviceOp::Synchronize);
    }

    /// Gives the next tensor id out. Ids count up from the first one and start over behind the largest
    /// address.
    pub fn generate_unique_tensor_id(&mut self) -> (r: usize)
        requires
            old(self).wf(),
        ensures
            final(self).wf(),
            r == old(self)@.next_id,
            final(self)@ == old(self)@.id_taken(),
    {
        let id: usize = self.next_id;
        self.next_id = id.wrapping_add(1);
        id
    }

    /// Gives back the tensors that were made since an id was the next one.
    pub(crate) fn give_back(&mut self, first: usize)
        requires
            old(self).wf(),
        ensures
            final(self).wf(),
            final(self)@ == old(self)@.then_run(
                frees_from(first, ids_between(first, old(self)@.next_id)),
            ),
    {
        let ghost d = self@;
        let ghost n = ids_between(first, d.next_id);
        let mut id: usize = first;
        let ghost mut done: nat = 0;
        assert(d.then_run(frees_from(first, 0)) =~= d);
        while id != self.next_id
            invariant
                self.wf(),
                self.next_id == d.next_id,
                n == ids_between(first, d.next_id),
                done <= n <= usize::MAX,
                id == first.wrapping_add(done as usize),
                self@ == d.then_run(frees_from(first, done)),
            decreases n - done,
        {
            proof {
                assert(done < n);
            }
            self.record(DeviceOp::Free { tensor: id });
            proof {
                assert(frees_from(first, done + 1) =~= frees_from(first, done).push(
                    OpView::Free { tensor: id },
                ));
                assert(d.then_run(frees_from(first, done + 1)) =~= d.then_run(
                    frees_from(first, done),
                ).then_run(seq![OpView::Free { tensor: id }]));
                done = done + 1;
            }
            id = id.wrapping_add(1);
        }
        assert(done == n);
    }

    /// Calculates the kernel launch over a plane, mostly used by dense layers.
    ///
    /// # Errors
    /// Refuses a side that does not fit in 32 bits.
    pub fn calculate_cfg2d(&self, x: usize, y: usize, mem: u32) -> (r: Result<LaunchConfig, Error>)
        requires
            self.wf(),
            tileable(x as int, self@.tile_dim as int),
            x <= u32::MAX ==> tileable(y as int, self@.tile_dim as int),
        ensures
            x <= u32::MAX && y <= u32::MAX ==> r == Ok::<LaunchConfig, Error>(
                plane_launch(self@.tile_dim, x as int, y as int, mem),
            ),
            x > u32::MAX || y > u32::MAX ==> refusal(r) == Some(ErrorView::IntConversion),
    {
        let grid_x: u32 = (to_u32(x)? + self.tile_dim_minus_1) / self.tile_dim;
        let grid_y: u32 = (to_u32(y)? + self.tile_dim_minus_1) / self.tile_dim;
        Ok(LaunchConfig {
            grid_dim: (grid_x, grid_y, 1),
            block_dim: (self.tile_dim, self.tile_dim, 1),
            shared_mem_bytes: mem,
        })
    }

    /// Calculates the kernel launch for 4D tensors, which uses all three dimensions of the grid.
    /// The batch (`n`) and the channels (`c`) are fused into the z-axis.
    /// Spatial height (`h`) takes the y-axis while spatial width (`w`) takes the x-axis.
    ///
    /// # Errors
    /// Refuses a size that does not fit in 32 bits.
    pub fn calculate_cfg4d(
        &self,
        n: usize,
        c: usize,
        h: usize,
        w: usize,
        mem: u32,
    ) -> (r: Result<LaunchConfig, Error>)
        requires
            self.wf(),
            tileable(w as int, self@.tile_dim as int),
            w <= u32::MAX ==> tileable(h as int, self@.tile_dim as int),
            w <= u32::MAX && h <= u32::MAX ==> n * c <= usize::MAX,
        ensures
            w <= u32::MAX && h <= u32::MAX && n * c <= u32::MAX ==> r == Ok::<LaunchConfig, Error>(
                volume_launch(self@.tile_dim, n as int, c as int, h as int, w as int, mem),
            ),
            w > u32::MAX || h > u32::MAX || n * c > u32::MAX ==> refusal(r) == Some(
                ErrorView::IntConversion,
            ),
    {
        let grid_x: u32 = (to_u32(w)? + self.tile_dim_minus_1) / self.tile_dim;
        let grid_y: u32 = (to_u32(h)? + self.tile_dim_minus_1) / self.tile_dim;
        let grid_z: u32 = to_u32(n * c)?;
        Ok(LaunchConfig {
            grid_dim: (grid_x, grid_y, grid_z),
            block_dim: (self.tile_dim, self.tile_dim, 1),
            shared_mem_bytes: mem,
        })
    }

    /// Half precision runs on tensor cores, which take tiles of sixteen threads a side only.
    ///
    /// # Errors
    /// Refuses half precision with any other tile.
    pub fn check_tile_dim<T: PrecisionType>(&self) -> (r: Result<(), Error>)
        ensures
            refusal(r) == tile_refusal(self@.tile_dim, T::format()),
    {
        if T::precision() == Precision::FP16 && self.tile_dim != 16 {
            return Err(
                Error::HardwareConstraintViolation {
                    precision: Precision::FP16,
                    expected: 16,
                    found: self.tile_dim,
                },
            );
        }
        Ok(())
    }
}

/// Why a tile does not suit a precision.
pub open spec fn tile_refusal(tile_dim: u32, precision: Precision) -> Option<ErrorView> {
    if precision == Precision::FP16 && tile_dim != 16 {
        Some(
            ErrorView::HardwareConstraintViolation {
                precision: Precision::FP16,
                expected: 16,
                found: tile_dim,
            },
        )
    } else {
        None
    }
}

} // verus!
