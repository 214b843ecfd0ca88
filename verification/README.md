# aixker-rlt

A lightweight reinforcement-learning trainer. The library in `src/` holds
the parts of a training node that work on plain values, verified with Verus:

- `configurations` and the configuration slot in `lib.rs` (`initialize`,
  `get_config`);
- `reply_buffer`: the ring-shaped experience replay buffer and its sampling;
- `node`: per-action statistics, action totals and the decision taken after
  each step;
- `worker`: the schedule of the background training worker;
- `reward`: how a chosen action relates to the observed pressure state;
- `footstep`: the diagnostic text written after sampled batches;
- `gpu_model`: workgroup counts and the byte layout of shader parameters.

`app/` is the program around it: the neural network and reward arithmetic on
floating-point values (`ndarray`), the wgpu backend, checkpoint files, the
async training loops (`tokio`) and the command line.
