# steam_mobile

The core of a runner for 32-bit Windows x86 programs on mobile devices,
written in Verus: the functions in `src/` carry contracts that Verus
proves. The few calls into the standard library that Verus has no
specification for (the clock and Unicode case mapping) go through small
trusted wrappers, whose contracts are taken as given and say no more than
the library's documentation.

- `memory`: paged virtual memory (4 KiB pages, regions, protection, dirty
  tracking) with little-endian reads and writes.
- `cpu`: x86 registers and flags, instruction decoding with a cache of
  decoded instructions, and execution of the supported opcodes.
- `translator`: translation of decoded x86 instructions to ARM
  instructions, with a translation cache.
- `pe`: parsing of PE files and loading of their images (sections, imports,
  base relocations).
- `syscall`: emulation of the Windows API calls the programs make.
- `graphics`, `dxvk`: the DirectX to Vulkan translation layer over mock
  Vulkan objects.
- `runtime`: the launch profile of a game session.
- `power`: frame pacing and the thermal frame-rate limits.
- `lib.rs`: the emulation engine that loads an image and steps through it.

`app/` holds what talks to the outside world: file reading, process exit,
the Android JNI bridge, and the floating-point thermal, input and runtime
orchestration. `tests/` exercises the library on concrete values.
