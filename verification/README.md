# retrovert-host

Host-side bindings for the Retrovert plugin ABI, version 2: a host loads playback,
output and resample plugins from shared libraries, lends them I/O, logging, metadata and
settings services through C vtables, and pulls decoded audio from them.

- `src/` is the verified library: the rules the host applies to everything a plugin hands
  back. It decides which files are plugin candidates, which descriptors are accepted, the
  order plugins are probed in and which one a probe selects; how plugin strings are read
  and decoded; what a metadata record keeps and flags; how the settings registry resolves,
  type-checks, persists and orders what plugins register; which `read_data` answers a
  decode session accepts, which conversions its first chunk commits it to and what storage
  a frame budget needs; and what structure a visualization may report and which captures
  fit the storage prepared for it.
- `app/` holds what cannot be verified: the `#[repr(C)]` mirrors and vtables, raw-pointer
  reads, dynamic loading, file access, the floating-point audio path (sample conversion,
  channel adaptation, resampling), the shared handles behind mutexes, and the error types
  with their display messages.
- `tests/` exercises the library on concrete values.
