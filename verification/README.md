# supermarioemu

A Super Mario Bros (mapper 0 / NROM) NES emulator core for reinforcement
learning, written in Verus: the 6502 interpreter, the PPU and its gray and
RGB frame writers, Super Mario Bros RAM decoding, FCEU save-state loading,
area resizing, frame stacking and the per-lane logic of the batched
environment carry contracts that Verus proves.

Layout:

- `src/` — the verified library.
  - `cpu.rs`, `instructions.rs`: addressing modes, ALU operations and the
    opcode interpreter, each stated over spec functions of the machine state.
  - `step_laws.rs`: what every instruction and frame keeps (episode flags,
    the unused status bit), JSR/RTS, and the episode invariant.
  - `ppu.rs`: PPU registers, memory map and mirroring, frame timing.
  - `render.rs`: background and sprite rendering; every writer states that
    its buffer holds exactly the chosen window of the finished frame.
  - `emulator.rs`: the bus, controller, OAM DMA, frame loop, reward and
    episode end, iNES images and FCEU states.
  - `fceu.rs`, `palette.rs`, `area.rs`, `bits.rs`: state fields, the master
    palette, area-resize arithmetic, bit facts.
  - `vec_env.rs`: observation configuration, resize plans, frame stacks,
    info outputs, done-on-info rules, frame skipping, lane sharing.
  - `profiler.rs`: counters and the ranking of hot opcodes and addresses.
- `tests/`: tests run against the compiled library.
- `app/`: the Python extension (pyo3/numpy), ROM files, the lane-parallel
  batch driver (rayon) and the profiler's JSON report.
