//! The names under which the device code holds the kernels.

use vstd::prelude::*;

use crate::io::device::{kernel_symbol, Kernel};
use crate::util::precision::Precision;

verus! {

/// What a kernel does, in the words of the device code. The stages of a pass are numbered from zero.
pub open spec fn kernel_words(kernel: Kernel) -> Seq<char> {
    match kernel {
        Kernel::ForwardPass0 => "forward_pass_"@ + seq!['0'],
        Kernel::ForwardPass1 => "forward_pass_"@ + seq!['1'],
        Kernel::ForwardPass2 => "forward_pass_"@ + seq!['2'],
        Kernel::ConvForwardPass0 => "conv_forward_pass_"@ + seq!['0'] + "_kernel"@,
        Kernel::ConvForwardPass1 => "conv_forward_pass_"@ + seq!['1'] + "_kernel"@,
        Kernel::ConvForwardPass2 => "conv_forward_pass_"@ + seq!['2'] + "_kernel"@,
        Kernel::ConvFftRowTransform => "conv_fft_row_transform"@ + "_kernel"@,
        Kernel::ConvFftColTransform => "conv_fft_col_transform"@ + "_kernel"@,
        Kernel::ConvElemMulIfftRow => "conv_elem_mul_ifft_row"@ + "_kernel"@,
        Kernel::ConvIfftColTransform => "conv_ifft_col_transform"@ + "_kernel"@,
        Kernel::Broadcast => "broadcast"@ + "_kernel"@,
        Kernel::Softmax => "softmax"@ + "_kernel"@,
        Kernel::ComputeOutputLayerError => "compute_output_layer_error"@,
        Kernel::ComputeHiddenLayerError => "compute_hidden_layer_error"@,
        Kernel::BackwardPass => "backward_pass"@,
        Kernel::Gemm => "gemm"@ + "_kernel"@,
        Kernel::Geam => "geam"@ + "_kernel"@,
        Kernel::CastF32ToF16 => "cast_f32_f16_t"@ + "_kernel"@,
        Kernel::CastF16ToF32 => "cast_f16_f32_t"@ + "_kernel"@,
    }
}

/// A kernel works on one fixed format.
pub open spec fn has_one_format(kernel: Kernel) -> bool {
    kernel == Kernel::CastF32ToF16 || kernel == Kernel::CastF16ToF32 || kernel
        == Kernel::ConvFftColTransform || kernel == Kernel::ConvElemMulIfftRow
}

/// The name of a kernel says what it does and which precision it works on: by a letter in front for
/// the general kernels on matrices, and by the format at the end for the others. A kernel that works
/// on one fixed format has one name.
pub proof fn law_symbols_say_kernel_and_precision(kernel: Kernel, precision: Precision)
    ensures
        ({
            let words = kernel_words(kernel);
            let half = precision == Precision::FP16;
            kernel_symbol(kernel, precision)@ == if has_one_format(kernel) {
                words
            } else if kernel == Kernel::Gemm || kernel == Kernel::Geam {
                (if half {
                    seq!['h']
                } else {
                    seq!['s']
                }) + words
            } else {
                words + (if half {
                    "_f16"@
                } else {
                    "_f32"@
                })
            }
        }),
{
    reveal_strlit("_f16");
    reveal_strlit("_f32");
    reveal_strlit("_kernel");
    match kernel {
        Kernel::ForwardPass0 => {
            reveal_strlit("forward_pass_");
            reveal_strlit("forward_pass_0_f32");
            reveal_strlit("forward_pass_0_f16");
        },
        Kernel::ForwardPass1 => {
            reveal_strlit("forward_pass_");
            reveal_strlit("forward_pass_1_f32");
            reveal_strlit("forward_pass_1_f16");
        },
        Kernel::ForwardPass2 => {
            reveal_strlit("forward_pass_");
            reveal_strlit("forward_pass_2_f32");
            reveal_strlit("forward_pass_2_f16");
        },
        Kernel::ConvForwardPass0 => {
            reveal_strlit("conv_forward_pass_");
            reveal_strlit("conv_forward_pass_0_kernel_f32");
            reveal_strlit("conv_forward_pass_0_kernel_f16");
        },
        Kernel::ConvForwardPass1 => {
            reveal_strlit("conv_forward_pass_");
            reveal_strlit("conv_forward_pass_1_kernel_f32");
            reveal_strlit("conv_forward_pass_1_kernel_f16");
        },
        Kernel::ConvForwardPass2 => {
            reveal_strlit("conv_forward_pass_");
            reveal_strlit("conv_forward_pass_2_kernel_f32");
            reveal_strlit("conv_forward_pass_2_kernel_f16");
        },
        Kernel::ConvFftRowTransform => {
            reveal_strlit("conv_fft_row_transform");
            reveal_strlit("conv_fft_row_transform_kernel_f32");
            reveal_strlit("conv_fft_row_transform_kernel_f16");
        },
        Kernel::ConvFftColTransform => {
            reveal_strlit("conv_fft_col_transform");
            reveal_strlit("conv_fft_col_transform_kernel");
        },
        Kernel::ConvElemMulIfftRow => {
            reveal_strlit("conv_elem_mul_ifft_row");
            reveal_strlit("conv_elem_mul_ifft_row_kernel");
        },
        Kernel::ConvIfftColTransform => {
            reveal_strlit("conv_ifft_col_transform");
            reveal_strlit("conv_ifft_col_transform_kernel_f32");
            reveal_strlit("conv_ifft_col_transform_kernel_f16");
        },
        Kernel::Broadcast => {
            reveal_strlit("broadcast");
            reveal_strlit("broadcast_kernel_f32");
            reveal_strlit("broadcast_kernel_f16");
        },
        Kernel::Softmax => {
            reveal_strlit("softmax");
            reveal_strlit("softmax_kernel_f32");
            reveal_strlit("softmax_kernel_f16");
        },
        Kernel::ComputeOutputLayerError => {
            reveal_strlit("compute_output_layer_error");
            reveal_strlit("compute_output_layer_error_f32");
            reveal_strlit("compute_output_layer_error_f16");
        },
        Kernel::ComputeHiddenLayerError => {
            reveal_strlit("compute_hidden_layer_error");
            reveal_strlit("compute_hidden_layer_error_f32");
            reveal_strlit("compute_hidden_layer_error_f16");
        },
        Kernel::BackwardPass => {
            reveal_strlit("backward_pass");
            reveal_strlit("backward_pass_f32");
            reveal_strlit("backward_pass_f16");
        },
        Kernel::Gemm => {
            reveal_strlit("gemm");
            reveal_strlit("sgemm_kernel");
            reveal_strlit("hgemm_kernel");
        },
        Kernel::Geam => {
            reveal_strlit("geam");
            reveal_strlit("sgeam_kernel");
            reveal_strlit("hgeam_kernel");
        },
        Kernel::CastF32ToF16 => {
            reveal_strlit("cast_f32_f16_t");
            reveal_strlit("cast_f32_f16_t_kernel");
        },
        Kernel::CastF16ToF32 => {
            reveal_strlit("cast_f16_f32_t");
            reveal_strlit("cast_f16_f32_t_kernel");
        },
    }
}

} // verus!
