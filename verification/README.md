# soklyn

A small deep learning library whose logic is verified with Verus: dense and convolutional layers,
feed forward networks, learning rate schedules, and the safetensors files that hold a network.

The library does not talk to a GPU itself. A `GpuContext` is a queue of device operations, and the
contract of each layer operation says exactly which operations it adds to the queue. The code under
`app/` runs the queue with `cudarc`, reads and writes files, and does what needs floating point.

- `src/util/` - matrices, images, tensors, bit patterns of numbers, layer settings, schedules
- `src/io/device/` - the kernels, their arguments and their launch grids
- `src/io/` - parameter names, and the writing and reading of safetensors files
- `src/mlp.rs`, `src/mlp/`, `src/ffn.rs`, `src/conv.rs` - dense layers, networks of them,
  convolutional layers
- `src/layers.rs`, `src/nn.rs` - networks that are saved and loaded layer by layer
- `tests/` - tests on concrete values
- `app/` - the device runtime, files, logging, floating point

What is proved of several functions together stands in the public proof functions whose names begin
with `law_`. What the library believes of other crates stands in `src/io/json.rs` (`serde_json`,
`indexmap`) and `src/util/init.rs` (`rand_chacha`).
