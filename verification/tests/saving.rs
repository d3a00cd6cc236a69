use soklyn::io::device::{DeviceOp, GpuContext, HostNumbers};
use soklyn::io::param_name::ParamType;
use soklyn::io::safetensor::SafetensorWriter;
use soklyn::io::save::{plan_layer, SafetensorFile};
use soklyn::layers::{load_dense_blocks, save_dense_blocks, save_dense_blocks_with_metadata};
use soklyn::mlp::DenseBlock;
use soklyn::nn::{
    blocks_from_tensors, check_all_equal, load_tensors, plan_block, read_safe_tensor,
    save_safe_tensor, save_tensors, save_tensors_with_metadata,
};
use soklyn::util::log::{Error, IoFault};
use soklyn::{FeedForwardNetwork, InitFunc, InitZeroFunc, Precision, PrecisionType, F16, F32};

fn layers<T: PrecisionType>(context: &mut GpuContext, is_training: bool) -> Vec<DenseBlock<T>> {
    let mut init = InitZeroFunc::new::<T>(0, F32 { bits: 0 });
    vec![
        DenseBlock::new(context, is_training, 3, 2, 4, &mut init).unwrap(),
        DenseBlock::new(context, is_training, 2, 5, 4, &mut init).unwrap(),
    ]
}

fn numbers_for<T: PrecisionType>(blocks: &[DenseBlock<T>]) -> Vec<Vec<Vec<u32>>> {
    let mut next = 0u32;
    blocks
        .iter()
        .map(|block| {
            plan_layer(block)
                .iter()
                .map(|p| {
                    (0..p.tensor.len)
                        .map(|_| {
                            next += 1;
                            next
                        })
                        .collect()
                })
                .collect()
        })
        .collect()
}

fn uploads(queue: &[DeviceOp]) -> Vec<(usize, Precision, Vec<u32>)> {
    queue
        .iter()
        .filter_map(|op| match op {
            DeviceOp::Upload { tensor, precision, numbers: HostNumbers::Patterns(bits), .. } => {
                Some((*tensor, *precision, bits.clone()))
            }
            _ => None,
        })
        .collect()
}

fn file_of(tensors: &[(&str, &[usize], usize, Precision)]) -> SafetensorFile {
    let mut w = SafetensorWriter::empty();
    for (name, shape, bytes, precision) in tensors {
        w.pass(name.to_string(), shape.to_vec(), vec![0; *bytes], *precision);
    }
    SafetensorFile::read(&w.write().unwrap()).unwrap()
}

fn load(tensors: &[(&str, &[usize], usize, Precision)]) -> Result<Vec<DenseBlock<F32>>, Error> {
    let mut context = GpuContext::new(16);
    file_of(tensors).checked_into_blocks(&mut context, true, 4).unwrap()
}

const FP32: Precision = Precision::FP32;

#[test]
fn a_layer_for_training_saves_what_its_optimiser_keeps() {
    let mut context = GpuContext::new(16);
    let kinds = |blocks: &[ParamType]| blocks.to_vec();
    let plain: Vec<DenseBlock<F32>> = layers(&mut context, false);
    let found: Vec<ParamType> = plan_layer(&plain[0]).iter().map(|p| p.kind).collect();
    assert_eq!(
        found,
        kinds(&[ParamType::W, ParamType::B, ParamType::NormW, ParamType::NormB])
    );
    let full: Vec<DenseBlock<F32>> = layers(&mut context, true);
    assert_eq!(plan_layer(&full[0]).len(), 12);
    let half: Vec<DenseBlock<F16>> = layers(&mut context, true);
    let plan = plan_layer(&half[0]);
    assert_eq!(plan.len(), 16);
    assert_eq!(plan[0].precision, Precision::FP16);
    assert_eq!(plan[0].shape, vec![3, 2]);
    assert_eq!(plan[1].shape, vec![2]);
    assert_eq!(plan[4].kind, ParamType::DvW);
    assert_eq!(plan[4].precision, FP32);
    assert_eq!(plan[12].kind, ParamType::MasterW);
    assert_eq!(plan[12].shape, vec![3, 2]);
    assert_eq!(plan[15].kind, ParamType::MasterNormB);
    assert_eq!(plan[15].shape, vec![1, 2]);
    assert_eq!(plan[0].tensor.tensor, half[0].get_weights().get_id());
    assert_eq!(plan[0].tensor.len, 6);
}

#[test]
fn layers_are_saved_under_their_names() {
    let mut context = GpuContext::new(16);
    let blocks: Vec<DenseBlock<F32>> = layers(&mut context, false);
    let numbers = numbers_for(&blocks);
    let mut file = SafetensorFile::from_blocks(&blocks, &numbers).unwrap();
    file.pass_metadata("epoch", "3");
    assert_eq!(file.get_metadata()["epoch"], "3");
    let names: Vec<&str> = file.get_descriptors().iter().map(|d| d.name.as_str()).collect();
    assert_eq!(
        names,
        vec![
            "layer1.w",
            "layer1.b",
            "layer1.norm_w",
            "layer1.norm_b",
            "layer2.w",
            "layer2.b",
            "layer2.norm_w",
            "layer2.norm_b",
        ]
    );
    assert_eq!(file.get_descriptors()[0].data[..8], [1, 0, 0, 0, 2, 0, 0, 0]);
    let back = SafetensorFile::read(&file.save().unwrap()).unwrap();
    assert_eq!(back.get_descriptors().len(), 8);
    assert_eq!(back.get_metadata()["epoch"], "3");
}

#[test]
fn a_saved_network_is_loaded_again() {
    let mut context = GpuContext::new(16);
    let network = FeedForwardNetwork::new(layers::<F16>(&mut context, true), 3);
    let numbers = numbers_for(network.get_layers());
    let image = SafetensorFile::from_ffn(&network, &numbers).unwrap().save().unwrap();
    context.take_queue();
    let file = SafetensorFile::read(&image).unwrap();
    let loaded: Vec<DenseBlock<F16>> = file
        .checked_into_blocks(&mut context, true, 4)
        .unwrap()
        .unwrap();
    assert_eq!(loaded.len(), 2);
    let queue = context.take_queue();
    let uploaded = uploads(&queue);
    for (block, numbers) in loaded.iter().zip(&numbers) {
        let again = plan_layer(block);
        assert_eq!(again.len(), 16);
        for (param, list) in again.iter().zip(numbers) {
            let found = uploaded.iter().find(|u| u.0 == param.tensor.tensor).unwrap();
            assert_eq!(found.1, param.precision);
            assert_eq!(&found.2, list);
            assert_eq!(param.tensor.len, list.len());
        }
    }
    assert_eq!(loaded[1].get_weights().get_shape(), &[2, 5]);
    assert_eq!(loaded[1].get_max_batch_size(), 4);
}

#[test]
fn moments_are_left_out_unless_they_are_needed() {
    let mut context = GpuContext::new(16);
    let blocks = layers::<F32>(&mut context, true);
    let numbers = numbers_for(&blocks);
    let image = save_dense_blocks(&blocks, &numbers).unwrap();
    context.take_queue();
    let loaded: Vec<DenseBlock<F32>> =
        load_dense_blocks(&mut context, &image, false, 4).unwrap().unwrap();
    assert!(!loaded[0].is_training_mode());
    let queue = context.take_queue();
    assert_eq!(uploads(&queue).len(), 8);
}

#[test]
fn blocks_are_saved_with_metadata() {
    let mut context = GpuContext::new(16);
    let blocks = layers::<F32>(&mut context, false);
    let numbers = numbers_for(&blocks);
    let meta = [
        ("a".to_string(), "1".to_string()),
        ("b".to_string(), "2".to_string()),
        ("a".to_string(), "3".to_string()),
    ];
    let image = save_dense_blocks_with_metadata(&blocks, &numbers, &meta).unwrap();
    let back = SafetensorFile::read(&image).unwrap();
    assert_eq!(back.get_metadata()["a"], "3");
    assert_eq!(back.get_metadata()["b"], "2");
    let refused: Result<Vec<DenseBlock<F32>>, Error> =
        load_dense_blocks(&mut context, &image[..20], false, 4).unwrap();
    assert!(matches!(refused, Err(Error::IOError(IoFault::UnexpectedEof))));
}

#[test]
fn files_without_whole_layers_are_refused() {
    assert!(matches!(load(&[]), Err(Error::NoLayersFound)));
    assert!(matches!(load(&[("other", &[1], 4, FP32)]), Err(Error::NoLayersFound)));
    assert!(matches!(
        load(&[("layer2.w", &[1, 1], 4, FP32), ("layer2.b", &[1], 4, FP32)]),
        Err(Error::MissingLayer { layer: 1 })
    ));
    assert!(matches!(
        load(&[("layer1.b", &[1], 4, FP32)]),
        Err(Error::MissingWeights { layer: 1 })
    ));
    assert!(matches!(
        load(&[("layer1.w", &[1, 1], 4, FP32)]),
        Err(Error::MissingBiases { layer: 1 })
    ));
    assert!(matches!(
        load(&[("layer1.w", &[2, 1], 4, FP32), ("layer1.b", &[1], 4, FP32)]),
        Err(Error::MismatchedDimensions { expected: 2, found: 1, .. })
    ));
    assert!(load(&[("layer1.w", &[1, 1], 4, FP32), ("layer1.b", &[1], 4, FP32)]).is_ok());
}

#[test]
fn names_that_are_malformed_are_refused() {
    match load(&[("layer1", &[1], 4, FP32)]) {
        Err(Error::InvalidTensorName { name, reason }) => {
            assert_eq!(name, "layer1");
            assert_eq!(reason, "missing '.' separator");
        }
        _ => panic!("not refused"),
    }
    match load(&[("layer07.dv_w", &[1, 1], 2, Precision::FP16)]) {
        Err(Error::PrecisionMatch { layer, param }) => {
            assert_eq!(layer, "07");
            assert_eq!(param, "dv_w");
        }
        _ => panic!("not refused"),
    }
}

#[test]
fn sizes_that_are_missing_are_told_apart() {
    let mut context = GpuContext::new(16);
    let file = file_of(&[("layer1.w", &[3], 4, FP32)]);
    let r: Option<Result<Vec<DenseBlock<F32>>, Error>> =
        file.checked_into_blocks(&mut context, false, 4);
    assert!(r.is_none());
    let file = file_of(&[("layer1.w", &[1, 1], 4, FP32), ("layer1.b", &[1], 4, FP32)]);
    let r: Option<Result<Vec<DenseBlock<F32>>, Error>> =
        file.checked_into_blocks(&mut context, false, (1 << 32) - 1);
    assert!(r.is_none());
    let file = file_of(&[("layer1.w", &[1, 1], 4, FP32), ("layer1.b", &[1], 4, FP32)]);
    let r: Option<Result<Vec<DenseBlock<F32>>, Error>> =
        file.checked_into_blocks(&mut context, false, 1 << 33);
    assert!(matches!(r, Some(Err(Error::IntConversion))));
}

#[test]
fn sizes_are_compared() {
    assert!(check_all_equal(&vec![3, 3, 3]));
    assert!(check_all_equal(&vec![3]));
    assert!(!check_all_equal(&vec![3, 3, 4]));
    assert!(check_all_equal(&vec!["a", "a"]));
    assert!(!check_all_equal(&vec!["a", "b"]));
}

fn full_layer(prefix: &str) -> Vec<(String, Vec<usize>, usize, Precision)> {
    vec![
        (format!("{prefix}.w"), vec![2, 3], 24, FP32),
        (format!("{prefix}.b"), vec![3], 12, FP32),
        (format!("{prefix}.norm_w"), vec![3], 24, FP32),
    ]
}

#[test]
fn a_network_in_training_is_read_leniently() {
    let mut w = SafetensorWriter::empty();
    for (name, shape, bytes, precision) in full_layer("layer1") {
        w.pass(name, shape, vec![7; bytes], precision);
    }
    w.pass("layerX.w".to_string(), vec![], vec![], FP32);
    w.pass("layer1.master_w".to_string(), vec![], vec![], FP32);
    w.pass("noise".to_string(), vec![], vec![], FP32);
    let image = w.write().unwrap();
    let mut context = GpuContext::new(16);
    let blocks = load_tensors(&mut context, &image, 4).unwrap();
    assert_eq!(blocks.len(), 1);
    let state = &blocks[0].linear_state;
    assert_eq!(state.w.get_shape(), &[2, 3]);
    assert_eq!(state.dv_b.get_shape(), &[1, 3]);
    assert!(state.is_consistent());
    assert_eq!(blocks[0].norm_state.w.get_shape(), &[2, 3]);
    assert_eq!(blocks[0].norm_state.dv_w.get_shape(), &[1, 3]);
    assert_eq!(blocks[0].grad.get_shape(), &[4, 3]);
    let queue = context.take_queue();
    assert_eq!(uploads(&queue).len(), 3);

    let plan = plan_block(&blocks[0]);
    assert_eq!(plan.len(), 12);
    let numbers: Vec<Vec<Vec<u32>>> =
        vec![plan.iter().map(|p| vec![9; p.tensor.len]).collect()];
    let meta = [("k".to_string(), "v".to_string())];
    let image = save_tensors_with_metadata(&blocks, &numbers, &meta).unwrap();
    let n = u64::from_le_bytes(image[..8].try_into().unwrap()) as usize;
    let header: serde_json::Value = serde_json::from_slice(&image[8..8 + n]).unwrap();
    assert_eq!(header["__metadata__"]["k"], "v");
    assert_eq!(SafetensorFile::read(&image).unwrap().get_metadata()["k"], "v");
    let tensors = read_safe_tensor(&image).unwrap();
    assert_eq!(tensors.len(), 12);
    let again = blocks_from_tensors(&mut context, &tensors, 4).unwrap();
    assert_eq!(again.len(), 1);
    let queue = context.take_queue();
    assert_eq!(uploads(&queue).len(), 12);
    let plain = save_tensors(&blocks, &numbers).unwrap();
    assert!(read_safe_tensor(&plain).is_some());
}

#[test]
fn a_network_in_training_wants_whole_layers_of_whole_numbers() {
    let mut context = GpuContext::new(16);
    let mut w = SafetensorWriter::empty();
    w.pass("layer1.w".to_string(), vec![1, 1], vec![1, 2, 3, 4], FP32);
    assert!(load_tensors(&mut context, &w.write().unwrap(), 4).is_none());
    w.pass("layer1.b".to_string(), vec![1], vec![1, 2], Precision::FP16);
    assert!(read_safe_tensor(&w.write().unwrap()).is_none());
    let mut w = SafetensorWriter::empty();
    w.pass("layer1.w".to_string(), vec![1, 1], vec![1, 2, 3], FP32);
    assert!(read_safe_tensor(&w.write().unwrap()).is_none());
    assert!(read_safe_tensor(&[1, 2]).is_none());
}

#[test]
fn metadata_of_a_file_is_an_object_of_texts() {
    let pair = |k: &str, v: &str| (k.to_string(), v.to_string());
    let image = save_safe_tensor(&[pair("k", "v")], &vec![]).unwrap();
    let n = u64::from_le_bytes(image[..8].try_into().unwrap()) as usize;
    let header: serde_json::Value = serde_json::from_slice(&image[8..8 + n]).unwrap();
    let expected: serde_json::Value =
        serde_json::from_str("{\"__metadata__\": {\"k\": \"v\"}}").unwrap();
    assert_eq!(header, expected);
    let image =
        save_safe_tensor(&[pair("b", "1"), pair("a", "2"), pair("b", "3")], &vec![]).unwrap();
    let back = SafetensorWriter::read(&image).unwrap();
    assert_eq!(back.get_metadata().len(), 2);
    assert_eq!(back.get_metadata()["a"], "2");
    assert_eq!(back.get_metadata()["b"], "3");
    let plain = save_safe_tensor(&[], &vec![]).unwrap();
    assert!(SafetensorWriter::read(&plain).unwrap().get_metadata().is_empty());
}

#[test]
fn a_file_with_reversed_offsets_is_refused_on_loading() {
    let header = "{\"layer1.w\":{\"dtype\":\"F32\",\"shape\":[1],\"data_offsets\":[4,0]}}";
    let mut image = (header.len() as u64).to_le_bytes().to_vec();
    image.extend_from_slice(header.as_bytes());
    image.extend_from_slice(&[0; 4]);
    let mut context = GpuContext::new(16);
    let r: Option<Result<Vec<DenseBlock<F32>>, Error>> =
        load_dense_blocks(&mut context, &image, true, 4);
    assert!(matches!(r, Some(Err(Error::SerdeJSON(_)))));
    assert!(matches!(SafetensorFile::read(&image), Err(Error::SerdeJSON(_))));
}

fn buffers(queue: &[DeviceOp]) -> (Vec<usize>, Vec<usize>) {
    let mut reserved = Vec::new();
    let mut freed = Vec::new();
    for op in queue {
        match op {
            DeviceOp::Allocate { tensor, .. }
            | DeviceOp::Upload { tensor, .. }
            | DeviceOp::Duplicate { tensor, .. } => reserved.push(*tensor),
            DeviceOp::Free { tensor } => freed.push(*tensor),
            _ => {}
        }
    }
    (reserved, freed)
}

#[test]
fn layers_in_front_of_a_missing_one_are_given_back() {
    let file = file_of(&[
        ("layer1.w", &[2, 3], 24, FP32),
        ("layer1.b", &[3], 12, FP32),
        ("layer3.w", &[3, 1], 12, FP32),
    ]);
    let mut context = GpuContext::new(16);
    let r: Result<Vec<DenseBlock<F32>>, Error> = file.into_blocks(&mut context, true, 4);
    assert!(matches!(r, Err(Error::MissingLayer { layer: 2 })));
    let (reserved, freed) = buffers(&context.take_queue());
    assert!(!reserved.is_empty());
    assert_eq!(reserved, freed);
}
