# luwen

A user-mode interface to Tenstorrent accelerator chips (Grayskull, Wormhole,
Blackhole), built around a library verified with Verus.

* `src/` is the verified library.  It holds the interface's decisions and
  data formats: register fields and address tables, the ARC mailbox, SPI
  flash and ethernet command-queue protocols (as state machines or register
  programs), TLB window and DMA request packing, telemetry decoding, and the
  rounds of chip initialization and discovery.  Every public function states
  its result in its contract; the `lemma_*` proof functions state properties
  that span several functions, such as reading back what was written.
* `app/` performs what the library asks for against real devices: the
  kernel driver's requests and memory mappings, register access, clocks and
  sleeps, address tables stored on disk, and text for people.
* `tests/` exercises the library on concrete values.
