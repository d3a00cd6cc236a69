use soklyn::io::device::{DeviceOp, GpuContext, Kernel, KernelArg, LaunchConfig};
use soklyn::mlp::DenseBlock;
use soklyn::util::function::Optimiser::SGD;
use soklyn::util::log::Error;
use soklyn::util::tensor::{scramble_seed, Tensor2D};
use soklyn::{
    Activation, FeedForwardNetwork, InitFunc, InitHeUniformFunc, InitZeroFunc, LayerInitConfig,
    LossConfig, LossFunc, MultiLayerTrainContext, Normalisation, Optimiser, Precision,
    Regularisation, TrainContext, F16, F32,
};

const BATCH_SIZE: usize = 64;

fn single(x: f32) -> F32 {
    F32 { bits: x.to_bits() }
}

fn gen_input(context: &mut GpuContext) -> Tensor2D<F32> {
    Tensor2D::zeros(context, &[64, 32]).unwrap()
}

fn gen_target(context: &mut GpuContext) -> Tensor2D<F32> {
    Tensor2D::zeros(context, &[64, 4]).unwrap()
}

fn kernels(queue: &[DeviceOp]) -> Vec<Kernel> {
    queue
        .iter()
        .filter_map(|op| match op {
            DeviceOp::Launch { kernel, .. } => Some(*kernel),
            _ => None,
        })
        .collect()
}

#[test]
fn it_works() {
    if let Err(err) = example1() {
        panic!("\n[!] Execution Error: {err:?}");
    }
}

fn example1() -> Result<(), Error> {
    // 1. Create the GPU context
    let mut context = GpuContext::new(16); // CUDA tile dimension of 16

    // 2. Create the initialiser
    // The seed 10 is arbitrarily chosen.
    // Factor multiples the weights. A low factor ensures weights are small in the beginning.
    let mut init = InitHeUniformFunc::new::<F32>(10, single(0.1));

    // 3. Create the layers. For example, a 32-16-8-4 network.
    // The activation of the last layer (the output layer) must be set to Identity
    let layer_config = LayerInitConfig {
        normalisation: Normalisation::Disabled,
        activation: Activation::LeakyReLU { coeff: single(0.01) },
        regularisation: Regularisation::Disabled,
        mask_coeff: single(0.1),
    };

    let layers: Vec<DenseBlock<F32>> = vec![
        DenseBlock::new_with_config(
            &mut context,
            true,
            32,
            16,
            BATCH_SIZE,
            &mut init,
            &layer_config,
        )?,
        DenseBlock::new_with_config(
            &mut context,
            true,
            16,
            8,
            BATCH_SIZE,
            &mut init,
            &layer_config,
        )?,
        DenseBlock::new(&mut context, true, 8, 4, BATCH_SIZE, &mut init)?,
    ];

    // 4. Wrap the layers inside the Feed Forward Network to simplify the process.
    let network = FeedForwardNetwork::<F32>::new(layers, 32);

    // 5. A normal single training loop with forward and backward passes
    // Here, the input tensor takes size (BATCH SIZE, 32) since there are 32 input neurons.
    // Whereas, the target tensor takes size (BATCH SIZE, 4) since there are 4 output neurons.
    let input = &gen_input(&mut context); // This is the input to your network
    let sgd = SGD {
        v_coeff: single(0.9),
        nesterov: true,
    }; // Stochastic Gradient Descent with Nesterov momentum
    let outputs = network.forward(&mut context, input, BATCH_SIZE, true, 1)?;
    let target = gen_target(&mut context);

    network.backward(
        &mut context,
        &outputs,
        &target,
        input,
        &LossConfig {
            loss_func: LossFunc::CrossEntropyLoss,
            activation: Activation::Softmax,
        },
        &MultiLayerTrainContext {
            batch_size: BATCH_SIZE,
            optimisers: &[sgd, sgd, sgd],
            norm_optimisers: &[sgd, sgd, sgd],
            learn_rate: single(0.01),
            grad_clamp: single(f32::MAX),
        },
        1,
    )?;

    Ok(())
}

#[test]
fn a_training_step_queues_its_kernels_in_order() {
    let mut context = GpuContext::new(16);
    let mut init = InitZeroFunc::new::<F32>(0, single(1.0));
    let layers: Vec<DenseBlock<F32>> = vec![
        DenseBlock::new(&mut context, true, 3, 5, 4, &mut init).unwrap(),
        DenseBlock::new(&mut context, true, 5, 2, 4, &mut init).unwrap(),
    ];
    let network = FeedForwardNetwork::new(layers, 3);
    assert_eq!(network.len(), 2);
    assert!(!network.is_empty());
    let input: Tensor2D<F32> = Tensor2D::zeros(&mut context, &[4, 3]).unwrap();
    let target: Tensor2D<F32> = Tensor2D::zeros(&mut context, &[4, 2]).unwrap();
    context.take_queue();
    let outputs = network.forward(&mut context, &input, 4, false, 7).unwrap();
    assert_eq!(outputs.len(), 2);
    assert_eq!(outputs[0].get_id(), network.get_layers()[0].get_outputs().get_id());
    assert_eq!(outputs[1].get_id(), network.get_layers()[1].get_outputs().get_id());
    let queue = context.take_queue();
    assert_eq!(
        kernels(&queue),
        vec![
            Kernel::ForwardPass0,
            Kernel::ForwardPass2,
            Kernel::ForwardPass0,
            Kernel::ForwardPass2,
        ]
    );
    let sgd = Optimiser::SGD { v_coeff: single(0.0), nesterov: false };
    network
        .backward(
            &mut context,
            &outputs,
            &target,
            &input,
            &LossConfig {
                loss_func: LossFunc::CrossEntropyLoss,
                activation: Activation::Softmax,
            },
            &MultiLayerTrainContext {
                batch_size: 4,
                optimisers: &[sgd, sgd],
                norm_optimisers: &[sgd, sgd],
                learn_rate: single(0.5),
                grad_clamp: single(1.0),
            },
            1,
        )
        .unwrap();
    let queue = context.take_queue();
    assert_eq!(
        kernels(&queue),
        vec![
            Kernel::Broadcast,
            Kernel::Broadcast,
            Kernel::Softmax,
            Kernel::ComputeOutputLayerError,
            Kernel::BackwardPass,
            Kernel::Broadcast,
            Kernel::Broadcast,
            Kernel::ComputeHiddenLayerError,
            Kernel::BackwardPass,
        ]
    );
}

#[test]
fn a_forward_pass_hands_its_arguments_over() {
    let mut context = GpuContext::new(16);
    let mut init = InitZeroFunc::new::<F32>(0, single(1.0));
    let config = LayerInitConfig {
        normalisation: Normalisation::BatchNorm,
        activation: Activation::LeakyReLU { coeff: single(0.25) },
        regularisation: Regularisation::Disabled,
        mask_coeff: single(0.5),
    };
    let layer: DenseBlock<F32> =
        DenseBlock::new_with_config(&mut context, false, 3, 20, 4, &mut init, &config).unwrap();
    let input: Tensor2D<F32> = Tensor2D::zeros(&mut context, &[4, 3]).unwrap();
    context.take_queue();
    layer.forward(&mut context, &input, 4, true, 9).unwrap();
    let queue = context.take_queue();
    assert_eq!(queue.len(), 6);
    match &queue[0] {
        DeviceOp::Launch { kernel, precision, args, config } => {
            assert_eq!(*kernel, Kernel::ForwardPass0);
            assert_eq!(*precision, Precision::FP32);
            assert_eq!(
                *args,
                vec![
                    KernelArg::Tensor(layer.get_prenorm_outputs().get_id()),
                    KernelArg::Tensor(input.get_id()),
                    KernelArg::Tensor(layer.get_weights().get_id()),
                    KernelArg::Tensor(layer.get_biases().get_id()),
                    KernelArg::U32(0),
                    KernelArg::U32(4),
                    KernelArg::U32(3),
                    KernelArg::U32(20),
                    KernelArg::U32(16),
                ]
            );
            assert_eq!(
                *config,
                LaunchConfig {
                    grid_dim: (2, 1, 1),
                    block_dim: (16, 16, 1),
                    shared_mem_bytes: 2048,
                }
            );
        }
        _ => panic!("no launch"),
    }
    match &queue[2] {
        DeviceOp::Launch { kernel, args, config, .. } => {
            assert_eq!(*kernel, Kernel::ForwardPass1);
            assert_eq!(args[8], KernelArg::U32(3));
            assert_eq!(config.grid_dim, (20, 1, 1));
            assert_eq!(config.block_dim, (256, 1, 1));
            assert_eq!(config.shared_mem_bytes, 1024);
        }
        _ => panic!("no launch"),
    }
    match &queue[4] {
        DeviceOp::Launch { kernel, args, .. } => {
            assert_eq!(*kernel, Kernel::ForwardPass2);
            assert_eq!(args[6], KernelArg::U32(3));
            assert_eq!(args[7], KernelArg::Real(single(0.25)));
            assert_eq!(args[8], KernelArg::U32(1));
            assert_eq!(args[9], KernelArg::Real(single(0.5)));
            let id = u32::try_from(layer.get_weights().get_id()).unwrap();
            assert_eq!(args[10], KernelArg::U32(scramble_seed(9, id)));
        }
        _ => panic!("no launch"),
    }
    assert!(matches!(queue[5], DeviceOp::Synchronize));
}

#[test]
fn inputs_that_do_not_suit_are_refused() {
    let mut context = GpuContext::new(16);
    let mut init = InitZeroFunc::new::<F32>(0, single(1.0));
    let mut layer: DenseBlock<F32> =
        DenseBlock::new(&mut context, false, 3, 5, 4, &mut init).unwrap();
    let narrow: Tensor2D<F32> = Tensor2D::zeros(&mut context, &[4, 2]).unwrap();
    let short: Tensor2D<F32> = Tensor2D::zeros(&mut context, &[2, 3]).unwrap();
    let long: Tensor2D<F32> = Tensor2D::zeros(&mut context, &[5, 3]).unwrap();
    let right: Tensor2D<F32> = Tensor2D::zeros(&mut context, &[4, 3]).unwrap();
    context.take_queue();
    assert!(matches!(
        layer.forward(&mut context, &narrow, 4, false, 1),
        Err(Error::MismatchedDimensions { expected: 3, found: 2, .. })
    ));
    assert!(matches!(
        layer.forward(&mut context, &short, 4, false, 1),
        Err(Error::MismatchedDimensions { expected: 4, found: 2, .. })
    ));
    assert!(matches!(
        layer.forward(&mut context, &long, 4, false, 1),
        Err(Error::AllocationLimitExceeded { received: 5, max: 4, .. })
    ));
    assert!(matches!(
        layer.forward(&mut context, &right, 0, false, 1),
        Err(Error::InvalidBatchSize { .. })
    ));
    layer.set_normalisation(Normalisation::BatchNorm);
    assert!(matches!(
        layer.forward(&mut context, &right, 1, false, 1),
        Err(Error::InvalidBatchSize { .. })
    ));
    layer.set_activation(Activation::Softmax);
    assert!(matches!(
        layer.forward(&mut context, &right, 4, false, 1),
        Err(Error::InvalidConfiguration { .. })
    ));
    let sgd = Optimiser::SGD { v_coeff: single(0.0), nesterov: false };
    let train = TrainContext {
        optimiser: &sgd,
        norm_optimiser: &sgd,
        batch_size: 4,
        learn_rate: single(0.5),
        grad_clamp: single(1.0),
    };
    assert!(matches!(
        layer.backward_output(&mut context, &right, &train, 1),
        Err(Error::TrainingModeRequired { .. })
    ));
    assert!(context.take_queue().is_empty());
}

#[test]
fn losses_are_paired_with_their_activations() {
    let mut context = GpuContext::new(16);
    let mut init = InitZeroFunc::new::<F32>(0, single(1.0));
    let layer: DenseBlock<F32> =
        DenseBlock::new(&mut context, true, 3, 5, 4, &mut init).unwrap();
    let target: Tensor2D<F32> = Tensor2D::zeros(&mut context, &[4, 5]).unwrap();
    let pairs = [
        (LossFunc::MeanSquareLoss, Activation::Softmax, false),
        (LossFunc::MeanSquareLoss, Activation::Identity, true),
        (LossFunc::CrossEntropyLoss, Activation::Softmax, true),
        (LossFunc::CrossEntropyLoss, Activation::Sigmoid, false),
        (LossFunc::BinaryCrossEntropy, Activation::Sigmoid, true),
        (LossFunc::BinaryCrossEntropy, Activation::Softmax, false),
    ];
    for (loss_func, activation, fine) in pairs {
        let r = layer.compute_loss(
            &mut context,
            &target,
            &LossConfig { loss_func, activation },
        );
        assert_eq!(r.is_ok(), fine);
        if !fine {
            assert!(matches!(r, Err(Error::InvalidConfiguration { .. })));
        }
    }
    let narrow: Tensor2D<F32> = Tensor2D::zeros(&mut context, &[4, 4]).unwrap();
    assert!(matches!(
        layer.compute_loss(
            &mut context,
            &narrow,
            &LossConfig {
                loss_func: LossFunc::MeanSquareLoss,
                activation: Activation::Identity,
            },
        ),
        Err(Error::MismatchedDimensions { .. })
    ));
}

#[test]
fn half_precision_wants_tiles_of_sixteen() {
    let mut context = GpuContext::new(32);
    let mut init = InitZeroFunc::new::<F16>(0, single(1.0));
    let layer: DenseBlock<F16> =
        DenseBlock::new(&mut context, false, 3, 5, 4, &mut init).unwrap();
    let input: Tensor2D<F16> = Tensor2D::zeros(&mut context, &[4, 3]).unwrap();
    assert!(matches!(
        layer.forward(&mut context, &input, 4, false, 1),
        Err(Error::HardwareConstraintViolation {
            precision: Precision::FP16,
            expected: 16,
            found: 32
        })
    ));
}

#[test]
fn a_layer_without_inputs_is_refused() {
    let mut context = GpuContext::new(16);
    let mut init = InitZeroFunc::new::<F32>(0, single(1.0));
    for (inputs, outputs, batch) in [(0, 5, 4), (3, 0, 4), (3, 5, 0)] {
        let r: Result<DenseBlock<F32>, Error> =
            DenseBlock::new(&mut context, false, inputs, outputs, batch, &mut init);
        assert!(r.is_err());
    }
}

#[test]
fn halving_a_layer_and_back_keeps_its_layout() {
    let mut context = GpuContext::new(16);
    let mut init = InitZeroFunc::new::<F32>(0, single(1.0));
    let mut layer: DenseBlock<F32> =
        DenseBlock::new(&mut context, true, 3, 5, 4, &mut init).unwrap();
    layer.set_mask_coeff(single(0.75));
    assert!(layer.get_master_weights().is_none());
    let half = layer.convert_f16(&mut context).unwrap();
    assert_eq!(half.get_weights().get_shape(), &[3, 5]);
    assert_eq!(half.get_biases().get_shape(), &[1, 5]);
    assert_eq!(half.get_master_weights().unwrap().get_shape(), &[3, 5]);
    assert_eq!(half.get_master_norm_biases().unwrap().get_shape(), &[1, 5]);
    let back = half.convert_f32(&mut context).unwrap();
    assert_eq!(back.get_weights().get_shape(), &[3, 5]);
    assert_eq!(back.get_outputs().get_shape(), &[4, 5]);
    assert!(back.get_master_weights().is_none());
    assert_eq!(back.get_mask_coeff(), single(0.75));
    assert!(back.is_training_mode());
}

#[test]
fn dropping_a_layer_frees_each_tensor() {
    let mut context = GpuContext::new(16);
    let mut init = InitZeroFunc::new::<F32>(0, single(1.0));
    let layer: DenseBlock<F32> =
        DenseBlock::new(&mut context, true, 3, 5, 4, &mut init).unwrap();
    let made = context.take_queue();
    let reserved = made
        .iter()
        .filter(|op| matches!(op, DeviceOp::Allocate { .. } | DeviceOp::Upload { .. }))
        .count();
    layer.drop(&mut context).unwrap();
    let freed = context.take_queue();
    let given_back = freed.iter().filter(|op| matches!(op, DeviceOp::Free { .. })).count();
    assert_eq!(reserved, given_back);
    assert!(matches!(freed.last(), Some(DeviceOp::Synchronize)));
}

#[test]
fn raw_pixels_are_uploaded_and_passed_on() {
    let mut context = GpuContext::new(16);
    let mut init = InitZeroFunc::new::<F32>(0, single(1.0));
    let layers: Vec<DenseBlock<F32>> =
        vec![DenseBlock::new(&mut context, false, 2, 1, 4, &mut init).unwrap()];
    let network = FeedForwardNetwork::new(layers, 2);
    context.take_queue();
    let pixels = [single(1.0), single(2.0), single(3.0), single(4.0)];
    network.forward_raw(&mut context, &pixels, 2, false, 1).unwrap();
    let queue = context.take_queue();
    assert!(matches!(queue[0], DeviceOp::Upload { .. }));
    assert!(network.forward_raw(&mut context, &pixels[..3], 2, false, 1).is_err());
}

#[test]
fn a_stack_wants_an_optimiser_for_each_layer() {
    let mut context = GpuContext::new(16);
    let mut init = InitZeroFunc::new::<F32>(0, single(1.0));
    let layers: Vec<DenseBlock<F32>> =
        vec![DenseBlock::new(&mut context, true, 2, 1, 4, &mut init).unwrap()];
    let network = FeedForwardNetwork::new(layers, 2);
    let input: Tensor2D<F32> = Tensor2D::zeros(&mut context, &[4, 2]).unwrap();
    let target: Tensor2D<F32> = Tensor2D::zeros(&mut context, &[4, 1]).unwrap();
    let outputs = network.forward(&mut context, &input, 4, false, 1).unwrap();
    context.take_queue();
    let r = network.backward(
        &mut context,
        &outputs,
        &target,
        &input,
        &LossConfig {
            loss_func: LossFunc::MeanSquareLoss,
            activation: Activation::Identity,
        },
        &MultiLayerTrainContext {
            batch_size: 4,
            optimisers: &[],
            norm_optimisers: &[],
            learn_rate: single(0.5),
            grad_clamp: single(1.0),
        },
        1,
    );
    assert!(r.is_err());
    assert!(context.take_queue().is_empty());
}

#[test]
fn gradients_have_as_many_rows_as_the_input() {
    let mut context = GpuContext::new(16);
    let mut init = InitZeroFunc::new::<F32>(0, single(1.0));
    let layer: DenseBlock<F32> =
        DenseBlock::new(&mut context, true, 3, 5, 4, &mut init).unwrap();
    let next: DenseBlock<F32> = DenseBlock::new(&mut context, true, 5, 2, 4, &mut init).unwrap();
    let fewer: DenseBlock<F32> = DenseBlock::new(&mut context, true, 5, 2, 2, &mut init).unwrap();
    let short: Tensor2D<F32> = Tensor2D::zeros(&mut context, &[3, 3]).unwrap();
    let right: Tensor2D<F32> = Tensor2D::zeros(&mut context, &[4, 3]).unwrap();
    let sgd = Optimiser::SGD { v_coeff: single(0.0), nesterov: false };
    let train = TrainContext {
        optimiser: &sgd,
        norm_optimiser: &sgd,
        batch_size: 3,
        learn_rate: single(0.5),
        grad_clamp: single(1.0),
    };
    context.take_queue();
    assert!(matches!(
        layer.backward_hidden(&mut context, &next, &short, &train, 1),
        Err(Error::MismatchedDimensions { expected: 3, found: 4, .. })
    ));
    assert!(matches!(
        layer.backward_hidden(&mut context, &fewer, &right, &train, 1),
        Err(Error::MismatchedDimensions { expected: 4, found: 2, .. })
    ));
    assert!(context.take_queue().is_empty());
    layer.backward_hidden(&mut context, &next, &right, &train, 1).unwrap();
    assert!(!context.take_queue().is_empty());
}

#[test]
fn weights_come_back_as_copies_of_copies() {
    let mut context = GpuContext::new(16);
    let mut init = InitZeroFunc::new::<F32>(0, single(1.0));
    let layer: DenseBlock<F32> =
        DenseBlock::new(&mut context, true, 3, 5, 4, &mut init).unwrap();
    let copy_of = |queue: &[DeviceOp], id: usize| {
        queue.iter().find_map(|op| match op {
            DeviceOp::Duplicate { tensor, source } if *tensor == id => Some(*source),
            _ => None,
        })
    };
    let weights = layer.get_weights().get_id();
    let biases = layer.get_biases().get_id();
    context.take_queue();
    let half = layer.convert_f16(&mut context).unwrap();
    let there = context.take_queue();
    let kept = half.get_master_weights().unwrap().get_id();
    assert_eq!(copy_of(&there, kept), Some(weights));
    let kept_norm = half.get_master_norm_biases().unwrap().get_id();
    let back = half.convert_f32(&mut context).unwrap();
    let again = context.take_queue();
    assert_eq!(copy_of(&again, back.get_weights().get_id()), Some(kept));
    assert_eq!(copy_of(&again, back.get_norm_biases().get_id()), Some(kept_norm));
    let kept_biases = copy_of(&again, back.get_biases().get_id()).unwrap();
    assert_eq!(copy_of(&there, kept_biases), Some(biases));
}

fn buffers(queue: &[DeviceOp]) -> (Vec<usize>, Vec<usize>) {
    let mut reserved = Vec::new();
    let mut freed = Vec::new();
    for op in queue {
        match op {
            DeviceOp::Allocate { tensor, .. }
            | DeviceOp::Upload { tensor, .. }
            | DeviceOp::Duplicate { tensor, .. } => reserved.push(*tensor),
            DeviceOp::Free { tensor } => freed.push(*tensor),
            _ => {}
        }
    }
    (reserved, freed)
}

#[test]
fn refused_layers_are_given_back() {
    let mut context = GpuContext::new(16);
    let mut init = InitZeroFunc::new::<F32>(0, single(1.0));
    let r: Result<DenseBlock<F32>, Error> =
        DenseBlock::new(&mut context, true, 3, 1, 1 << 33, &mut init);
    assert!(matches!(r, Err(Error::IntConversion)));
    let (reserved, freed) = buffers(&context.take_queue());
    assert_eq!(reserved.len(), 6 + 6 + 6 + 4 + 1);
    assert_eq!(reserved, freed);
}

#[test]
fn refused_numbers_are_given_back() {
    let mut context = GpuContext::new(16);
    let mut init = InitZeroFunc::new::<F32>(0, single(1.0));
    let mut layer: DenseBlock<F32> =
        DenseBlock::new(&mut context, false, 2, 1, 4, &mut init).unwrap();
    layer.set_activation(Activation::Softmax);
    let network = FeedForwardNetwork::new(vec![layer], 2);
    context.take_queue();
    let pixels = [single(1.0), single(2.0)];
    assert!(network.forward_raw(&mut context, &pixels, 1, false, 1).is_err());
    let (reserved, freed) = buffers(&context.take_queue());
    assert_eq!(reserved.len(), 1);
    assert_eq!(reserved, freed);
    let empty: FeedForwardNetwork<F32> = FeedForwardNetwork::new(vec![], 2);
    assert!(empty.forward_raw(&mut context, &pixels, 1, false, 1).is_err());
    let (reserved, freed) = buffers(&context.take_queue());
    assert_eq!(reserved.len(), 1);
    assert_eq!(reserved, freed);
}
