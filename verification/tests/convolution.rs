use soklyn::conv::{ConvBlock, FftBuffers};
use soklyn::io::device::{DeviceOp, DeviceSlice, GpuContext, Kernel, KernelArg};
use soklyn::util::log::Error;
use soklyn::util::tensor::Tensor4D;
use soklyn::{
    Activation, ConvAlgorithm, InitFunc, InitZeroFunc, KernelConfig, Normalisation, PaddingType,
    PoolingType, Regularisation, F16, F32,
};

fn windows(size: usize, pad: usize, stride: usize) -> KernelConfig {
    KernelConfig::new((size, size), pad, PaddingType::ZeroPadding, (stride, stride), (1, 1)).unwrap()
}

fn block(context: &mut GpuContext, normalisation: Normalisation) -> ConvBlock<F32> {
    let mut init = InitZeroFunc::new::<F32>(0, F32 { bits: 0 });
    ConvBlock::default(
        context,
        true,
        4,
        &(8, 6),
        &mut init,
        windows(3, 1, 1),
        Some(windows(2, 0, 2)),
        3,
        5,
        normalisation,
    )
    .unwrap()
}

fn launches(queue: &[DeviceOp]) -> Vec<Kernel> {
    queue
        .iter()
        .filter_map(|op| match op {
            DeviceOp::Launch { kernel, .. } => Some(*kernel),
            _ => None,
        })
        .collect()
}

#[test]
fn a_block_is_sized_by_its_windows() {
    let mut context = GpuContext::new(16);
    let b = block(&mut context, Normalisation::Disabled);
    assert_eq!(b.get_filter_weights().get_shape(), &[5, 3, 3, 3]);
    assert_eq!(b.get_filter_biases().get_shape(), &[5]);
    assert_eq!(b.get_preact_features().get_shape(), &[4, 5, 6, 8]);
    assert_eq!(b.get_features().get_shape(), &[4, 5, 3, 4]);
    assert_eq!(b.get_pooling_type(), Some(&PoolingType::MaxPooling));
    assert_eq!(b.get_algorithm(), ConvAlgorithm::Spatial);
    assert!(b.get_norm_cache().is_none());
    assert_eq!(b.get_max_batch_size(), 4);
    assert_eq!(*b.get_activation(), Activation::Identity);
    assert_eq!(*b.get_regularisation(), Regularisation::Disabled);
    assert!(b.is_training_mode());
}

#[test]
fn filters_slide_over_the_input() {
    let mut context = GpuContext::new(16);
    let mut b = block(&mut context, Normalisation::BatchNorm);
    b.set_activation(Activation::ReLU);
    let input: Tensor4D<F32> = Tensor4D::zeros(&mut context, &[2, 3, 6, 8]).unwrap();
    context.take_queue();
    b.forward(&mut context, &input, 2, true, 1).unwrap();
    let queue = context.take_queue();
    assert_eq!(
        launches(&queue),
        vec![
            Kernel::ConvForwardPass0,
            Kernel::ConvForwardPass1,
            Kernel::ConvForwardPass2,
        ]
    );
    match &queue[0] {
        DeviceOp::Launch { args, config, .. } => {
            assert_eq!(args[1], KernelArg::Tensor(input.get_id()));
            assert_eq!(args[4], KernelArg::U32(0));
            assert_eq!(args[9], KernelArg::U32(8));
            assert_eq!(args[10], KernelArg::U32(6));
            assert_eq!(config.grid_dim, (1, 1, 10));
            assert_eq!(config.shared_mem_bytes, 18 * 18 * 4);
        }
        _ => panic!("no launch"),
    }
}

#[test]
fn frequencies_are_multiplied() {
    let mut context = GpuContext::new(16);
    let mut b = block(&mut context, Normalisation::Disabled);
    let buffer = |tensor: usize| DeviceSlice { tensor, len: 1 << 12 };
    b.use_fft(FftBuffers {
        input: buffer(100),
        weights: buffer(101),
        output: buffer(102),
        twiddle_width: buffer(103),
        twiddle_height: buffer(104),
        size: (16, 8),
    });
    assert_eq!(b.get_algorithm(), ConvAlgorithm::FrequencyFFT);
    let input: Tensor4D<F32> = Tensor4D::zeros(&mut context, &[2, 3, 6, 8]).unwrap();
    context.take_queue();
    b.forward(&mut context, &input, 2, false, 1).unwrap();
    let queue = context.take_queue();
    assert_eq!(
        launches(&queue),
        vec![
            Kernel::ConvFftRowTransform,
            Kernel::ConvFftColTransform,
            Kernel::ConvElemMulIfftRow,
            Kernel::ConvIfftColTransform,
            Kernel::ConvForwardPass2,
        ]
    );
    match &queue[0] {
        DeviceOp::Launch { config, .. } => {
            assert_eq!(config.grid_dim, ((2 + 5) * 3 * 8, 1, 1));
            assert_eq!(config.shared_mem_bytes, 16 * 8);
        }
        _ => panic!("no launch"),
    }
}

#[test]
fn inputs_that_do_not_fit_are_refused() {
    let mut context = GpuContext::new(16);
    let mut b = block(&mut context, Normalisation::Disabled);
    let refused = [
        ([1, 3, 6, 8], 2),
        ([5, 3, 6, 8], 2),
        ([2, 2, 6, 8], 2),
        ([2, 3, 6, 2], 2),
        ([2, 3, 2, 8], 2),
        ([2, 3, 6, 9], 2),
        ([2, 3, 7, 8], 2),
        ([2, 3, 6, 8], 0),
    ];
    for (shape, batch_size) in refused {
        let input: Tensor4D<F32> = Tensor4D::zeros(&mut context, &shape).unwrap();
        context.take_queue();
        assert!(b.forward(&mut context, &input, batch_size, false, 1).is_err());
        assert!(context.take_queue().is_empty());
    }
    let input: Tensor4D<F32> = Tensor4D::zeros(&mut context, &[2, 3, 6, 8]).unwrap();
    b.set_activation(Activation::Softmax);
    assert!(matches!(
        b.forward(&mut context, &input, 2, false, 1),
        Err(Error::InvalidConfiguration { .. })
    ));
}

#[test]
fn blocks_that_make_no_sense_are_refused() {
    let mut context = GpuContext::new(16);
    let mut init = InitZeroFunc::new::<F32>(0, F32 { bits: 0 });
    let plans = [
        (0, (8, 6), windows(3, 0, 1), 3, 5),
        (4, (8, 6), windows(3, 0, 1), 0, 5),
        (4, (8, 6), windows(3, 0, 1), 3, 0),
        (4, (2, 6), windows(3, 0, 1), 3, 5),
        (4, (3, 3), windows(3, 0, 1), 3, 5),
    ];
    for (batch, dim, filter, in_channels, out_channels) in plans {
        let r: Result<ConvBlock<F32>, Error> = ConvBlock::default(
            &mut context,
            true,
            batch,
            &dim,
            &mut init,
            filter,
            Some(windows(2, 0, 2)),
            in_channels,
            out_channels,
            Normalisation::Disabled,
        );
        assert!(matches!(r, Err(Error::InvalidConfiguration { .. })));
    }
}

#[test]
fn a_block_is_halved_and_doubled() {
    let mut context = GpuContext::new(16);
    let b = block(&mut context, Normalisation::LayerNorm);
    let half: ConvBlock<F16> = b.convert_f16(&mut context).unwrap();
    assert_eq!(half.get_filter_weights().get_shape(), &[5, 3, 3, 3]);
    let back: ConvBlock<F32> = half.convert_f32(&mut context).unwrap();
    assert_eq!(back.get_filter_weights().get_shape(), &[5, 3, 3, 3]);
    assert_eq!(back.get_filter_biases().get_shape(), &[5]);
    assert_eq!(back.get_preact_features().get_shape(), &[4, 5, 6, 8]);
    assert_eq!(back.get_features().get_shape(), &[4, 5, 3, 4]);
    assert_eq!(back.get_max_batch_size(), 4);
    assert_eq!(*back.get_normalisation(), Normalisation::LayerNorm);
}

#[test]
fn a_smaller_input_has_fewer_windows() {
    for cfg in [windows(3, 1, 1), windows(2, 0, 2), windows(3, 0, 3)] {
        let largest = cfg.elements_from_length(&(8, 6));
        for width in 0..9 {
            for height in 0..7 {
                let count = cfg.elements_from_length(&(width, height));
                assert!(count.0 <= largest.0 && count.1 <= largest.1);
            }
        }
    }
}

#[test]
fn a_smaller_input_is_padded_with_zeros() {
    let mut context = GpuContext::new(16);
    let b = block(&mut context, Normalisation::Disabled);
    let input: Tensor4D<F32> = Tensor4D::zeros(&mut context, &[2, 3, 4, 5]).unwrap();
    context.take_queue();
    let padded = context.get_next_id();
    b.forward(&mut context, &input, 2, false, 1).unwrap();
    let queue = context.take_queue();
    match &queue[0] {
        DeviceOp::Allocate { tensor, len, .. } => {
            assert_eq!((*tensor, *len), (padded, 2 * 3 * 6 * 8));
        }
        _ => panic!("nothing is reserved"),
    }
    match &queue[2] {
        DeviceOp::Inset { tensor, source, planes, inner, outer } => {
            assert_eq!((*tensor, *source, *planes), (padded, input.get_id(), 6));
            assert_eq!((*inner, *outer), ((5, 4), (8, 6)));
        }
        _ => panic!("the input is not copied"),
    }
    match &queue[3] {
        DeviceOp::Launch { kernel, args, .. } => {
            assert_eq!(*kernel, Kernel::ConvForwardPass0);
            assert_eq!(args[1], KernelArg::Tensor(padded));
            assert_eq!(args[7], KernelArg::U32(8));
            assert_eq!(args[8], KernelArg::U32(6));
            assert_eq!(args[9], KernelArg::U32(8));
            assert_eq!(args[10], KernelArg::U32(6));
        }
        _ => panic!("nothing is launched"),
    }
    assert!(matches!(queue.last(), Some(DeviceOp::Free { tensor }) if *tensor == padded));
}

#[test]
fn a_refused_conversion_gives_the_buffers_back() {
    let mut context = GpuContext::new(16);
    let mut init = InitZeroFunc::new::<F32>(0, F32 { bits: 0 });
    let b: ConvBlock<F32> = ConvBlock::default(
        &mut context,
        true,
        1 << 30,
        &(8, 6),
        &mut init,
        windows(3, 1, 1),
        Some(windows(2, 0, 2)),
        3,
        5,
        Normalisation::BatchNorm,
    )
    .unwrap();
    let weights = b.get_filter_weights().get_id();
    let features = b.get_features().get_id();
    context.take_queue();
    assert!(matches!(b.convert_f16(&mut context), Err(Error::IntConversion)));
    let freed: Vec<usize> = context
        .take_queue()
        .iter()
        .filter_map(|op| match op {
            DeviceOp::Free { tensor } => Some(*tensor),
            _ => None,
        })
        .collect();
    assert_eq!(freed.len(), 12);
    assert!(freed.contains(&weights) && freed.contains(&features));
}

fn buffers(queue: &[DeviceOp]) -> (Vec<usize>, Vec<usize>) {
    let mut reserved = Vec::new();
    let mut freed = Vec::new();
    for op in queue {
        match op {
            DeviceOp::Allocate { tensor, .. }
            | DeviceOp::Upload { tensor, .. }
            | DeviceOp::Duplicate { tensor, .. } => reserved.push(*tensor),
            DeviceOp::Free { tensor } => freed.push(*tensor),
            _ => {}
        }
    }
    (reserved, freed)
}

#[test]
fn a_refused_block_is_given_back() {
    let mut context = GpuContext::new(16);
    let mut init = InitZeroFunc::new::<F32>(0, F32 { bits: 0 });
    let r: Result<ConvBlock<F32>, Error> = ConvBlock::default(
        &mut context,
        true,
        1,
        &(1 << 17, 1 << 17),
        &mut init,
        windows(1, 0, 1),
        None,
        1,
        1,
        Normalisation::LayerNorm,
    );
    assert!(matches!(r, Err(Error::IntConversion)));
    let (reserved, freed) = buffers(&context.take_queue());
    assert_eq!(reserved.len(), 8);
    assert_eq!(reserved, freed);
}
