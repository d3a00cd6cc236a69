use rand_chacha::rand_core::{RngCore, SeedableRng};
use soklyn::io::device::{DeviceOp, GpuContext, HostNumbers, Kernel, KernelArg, LaunchConfig};
use soklyn::util::init::{draw_words, WeightDraws};
use soklyn::util::log::{to_u32, Error};
use soklyn::util::tensor::{scramble_seed, Tensor, Tensor1D, Tensor2D, Tensor4D};
use soklyn::{
    InitFunc, InitHeNormalFunc, InitHeUniformFunc, InitXavierNormalFunc, InitXavierUniformFunc,
    InitZeroFunc, Precision, F16, F32,
};

fn single(x: f32) -> F32 {
    F32 { bits: x.to_bits() }
}

#[test]
fn ids_count_up() {
    let mut context = GpuContext::new(16);
    assert_eq!(context.generate_unique_tensor_id(), 0);
    assert_eq!(context.generate_unique_tensor_id(), 1);
    let t: Tensor1D<F32> = Tensor1D::zeros(&mut context, &[3]).unwrap();
    let u: Tensor1D<F32> = Tensor1D::zeros(&mut context, &[3]).unwrap();
    assert_eq!(t.get_id(), 2);
    assert_eq!(u.get_id(), 3);
}

#[test]
fn grids_cover_their_planes() {
    let context = GpuContext::with_device_index(2, 16);
    assert_eq!(context.get_ordinal(), 2);
    assert_eq!(context.get_tile_dim(), 16);
    assert_eq!(context.get_tile_dim_2(), 256);
    assert_eq!(
        context.calculate_cfg2d(17, 32, 5).unwrap(),
        LaunchConfig {
            grid_dim: (2, 2, 1),
            block_dim: (16, 16, 1),
            shared_mem_bytes: 5,
        }
    );
    let volume = context.calculate_cfg4d(2, 3, 33, 16, 0).unwrap();
    assert_eq!(volume.grid_dim, (1, 3, 6));
    assert_eq!(volume.block_dim, (16, 16, 1));
    assert!(matches!(context.calculate_cfg2d(1 << 40, 1, 0), Err(Error::IntConversion)));
}

#[test]
fn sizes_are_narrowed_or_refused() {
    assert_eq!(to_u32(7).unwrap(), 7);
    assert!(matches!(to_u32(1 << 32), Err(Error::IntConversion)));
}

#[test]
fn kernels_have_the_names_of_their_formats() {
    assert_eq!(Kernel::Gemm.symbol(Precision::FP32), "sgemm_kernel");
    assert_eq!(Kernel::Gemm.symbol(Precision::FP16), "hgemm_kernel");
    assert_eq!(Kernel::CastF32ToF16.symbol(Precision::FP16), "cast_f32_f16_t_kernel");
    assert_eq!(
        Kernel::ConvIfftColTransform.symbol(Precision::FP16),
        "conv_ifft_col_transform_kernel_f16"
    );
}

#[test]
fn filling_a_tensor_queues_a_broadcast() {
    let mut context = GpuContext::new(16);
    let t: Tensor2D<F16> = Tensor2D::fill(&mut context, &[10, 30], F16 { bits: 0x3c00 }).unwrap();
    assert_eq!((t.rows(), t.cols()), (10, 30));
    assert_eq!(t.get_data().len, 300);
    let queue = context.take_queue();
    assert_eq!(queue.len(), 3);
    assert!(matches!(
        queue[0],
        DeviceOp::Allocate { tensor: 0, precision: Precision::FP16, len: 300 }
    ));
    assert!(matches!(queue[1], DeviceOp::Synchronize));
    match &queue[2] {
        DeviceOp::Launch { kernel, args, config, .. } => {
            assert_eq!(*kernel, Kernel::Broadcast);
            assert_eq!(
                *args,
                vec![
                    KernelArg::Tensor(0),
                    KernelArg::Scalar { precision: Precision::FP16, pattern: 0x3c00 },
                    KernelArg::U32(300),
                ]
            );
            assert_eq!(config.grid_dim, (2, 1, 1));
            assert_eq!(config.block_dim, (256, 1, 1));
        }
        _ => panic!("no launch"),
    }
}

#[test]
fn numbers_of_the_host_have_to_fill_a_tensor() {
    let mut context = GpuContext::new(16);
    let numbers = [single(1.0), single(2.0), single(3.0)];
    assert!(matches!(
        Tensor::<F32, 2>::from_host(
            &mut context,
            HostNumbers::Patterns(vec![1, 2, 3]),
            Precision::FP32,
            &[2, 2]
        ),
        Err(Error::MismatchedDimensions { expected: 4, found: 3, .. })
    ));
    assert!(context.take_queue().is_empty());
    let t: Tensor1D<F32> = Tensor1D::from_cpu_vector(&mut context, &numbers, &[3]).unwrap();
    match &context.take_queue()[0] {
        DeviceOp::Upload { numbers: HostNumbers::Patterns(bits), held, .. } => {
            assert_eq!(*held, Precision::FP32);
            assert_eq!(*bits, vec![1.0f32.to_bits(), 2.0f32.to_bits(), 3.0f32.to_bits()]);
        }
        _ => panic!("no upload"),
    }
    let u: Tensor4D<F32> = Tensor4D::from_gpu_slice(&mut context, t, &[1, 1, 3, 1]).unwrap();
    assert_eq!((u.batches(), u.channels(), u.height(), u.width()), (1, 1, 3, 1));
    let line: Tensor1D<F32> = Tensor1D::zeros(&mut context, &[3]).unwrap();
    assert!(Tensor2D::from_gpu_slice(&mut context, line, &[2, 2]).is_err());
}

#[test]
fn casting_a_tensor_gives_the_old_buffer_back() {
    let mut context = GpuContext::new(16);
    let t: Tensor2D<F32> = Tensor2D::zeros(&mut context, &[4, 4]).unwrap();
    let id = t.get_id();
    context.take_queue();
    let half: Tensor2D<F16> = t.cast(&mut context).unwrap();
    assert_eq!(half.get_shape(), &[4, 4]);
    let queue = context.take_queue();
    assert!(queue
        .iter()
        .any(|op| matches!(op, DeviceOp::Launch { kernel: Kernel::CastF32ToF16, .. })));
    assert!(queue.iter().any(|op| matches!(op, DeviceOp::Free { tensor } if *tensor == id)));
    let same: Result<Tensor2D<F16>, Error> = half.cast(&mut context);
    assert!(matches!(same, Err(Error::UnsupportedTypeCast { .. })));
}

#[test]
fn downloaded_numbers_make_a_matrix() {
    let mut context = GpuContext::new(16);
    let t: Tensor2D<F32> = Tensor2D::zeros(&mut context, &[1, 2]).unwrap();
    let m = t.downloaded(vec![single(4.0), single(5.0)]);
    assert_eq!(m.get(0, 1), Some(&single(5.0)));
}

#[test]
fn seeds_differ_from_layer_to_layer() {
    let seeds: Vec<u32> = (0..100).map(|layer| scramble_seed(3, layer)).collect();
    for i in 0..seeds.len() {
        for j in 0..i {
            assert_ne!(seeds[i], seeds[j]);
        }
    }
    assert_eq!(scramble_seed(0, 0), 0);
}

#[test]
fn words_come_from_the_key_stream() {
    let words = draw_words(10, 0, 70);
    assert_eq!(words.len(), 70);
    assert_eq!(draw_words(10, 3, 2), words[3..5].to_vec());
    assert_eq!(draw_words(10, 60, 10), words[60..70].to_vec());
    assert_ne!(draw_words(11, 0, 4), words[0..4].to_vec());
    assert!(words.iter().any(|w| *w > u32::MAX / 2));
    assert!(words.iter().any(|w| *w < u32::MAX / 2));
}

#[test]
fn words_are_those_of_the_generator() {
    let mut rng = rand_chacha::ChaCha8Rng::seed_from_u64(42);
    let expected: Vec<u32> = (0..40).map(|_| rng.next_u32()).collect();
    assert_eq!(draw_words(42, 0, 40), expected);
}

#[test]
fn initialisers_scale_by_their_layers() {
    match InitXavierUniformFunc::new::<F32>(1, single(0.5)).init::<F32>(3, 5, 15) {
        WeightDraws::Uniform { factor, numerator, denominator, words } => {
            assert_eq!((factor, numerator, denominator), (single(0.5), 6, 8));
            assert_eq!(words, draw_words(1, 0, 15));
        }
        _ => panic!("not uniform"),
    }
    match InitXavierNormalFunc::new::<F32>(1, single(0.5)).init::<F32>(3, 5, 15) {
        WeightDraws::Normal { numerator, denominator, words, .. } => {
            assert_eq!((numerator, denominator), (2, 8));
            assert_eq!(words.len(), 30);
        }
        _ => panic!("not normal"),
    }
    match InitHeNormalFunc::new::<F32>(1, single(0.5)).init::<F32>(3, 5, 15) {
        WeightDraws::Normal { numerator, denominator, .. } => {
            assert_eq!((numerator, denominator), (2, 3));
        }
        _ => panic!("not normal"),
    }
    let mut he = InitHeUniformFunc::new::<F32>(1, single(0.5));
    he.init::<F32>(3, 5, 15);
    match he.init::<F32>(5, 2, 10) {
        WeightDraws::Uniform { numerator, denominator, words, .. } => {
            assert_eq!((numerator, denominator), (6, 5));
            assert_eq!(words, draw_words(1, 15, 10));
        }
        _ => panic!("not uniform"),
    }
    assert_eq!(InitZeroFunc::new::<F32>(1, single(0.5)).init::<F32>(3, 5, 15).len(), 15);
}

#[test]
fn contexts_share_no_ids() {
    let mut a = GpuContext::new(16);
    let first: Tensor1D<F32> = Tensor1D::zeros(&mut a, &[3]).unwrap();
    let second: Tensor1D<F32> = Tensor1D::zeros(&mut a, &[3]).unwrap();
    let mut b = GpuContext::with_first_id(1, 16, a.get_next_id());
    let third: Tensor1D<F32> = Tensor1D::zeros(&mut b, &[3]).unwrap();
    assert_eq!((first.get_id(), second.get_id(), third.get_id()), (0, 1, 2));
    assert_eq!(b.get_ordinal(), 1);
    assert_eq!(b.get_next_id(), 3);
}

fn buffers(queue: &[DeviceOp]) -> (Vec<usize>, Vec<usize>) {
    let mut reserved = Vec::new();
    let mut freed = Vec::new();
    for op in queue {
        match op {
            DeviceOp::Allocate { tensor, .. }
            | DeviceOp::Upload { tensor, .. }
            | DeviceOp::Duplicate { tensor, .. } => reserved.push(*tensor),
            DeviceOp::Free { tensor } => freed.push(*tensor),
            _ => {}
        }
    }
    (reserved, freed)
}

#[test]
fn refused_tensors_are_given_back() {
    let mut context = GpuContext::new(16);
    let r: Result<Tensor1D<F32>, Error> = Tensor1D::fill(&mut context, &[1 << 33], single(1.0));
    assert!(matches!(r, Err(Error::IntConversion)));
    assert_eq!(buffers(&context.take_queue()), (vec![0], vec![0]));
    let t: Tensor1D<F32> = Tensor1D::zeros(&mut context, &[1 << 33]).unwrap();
    context.take_queue();
    let r: Result<Tensor1D<F16>, Error> = t.cast(&mut context);
    assert!(matches!(r, Err(Error::IntConversion)));
    assert_eq!(buffers(&context.take_queue()), (vec![2], vec![2, 1]));
}
