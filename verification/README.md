# dillo

The verified core of a small virtual machine monitor: how guest devices are placed
and configured, what a guest sees when it touches them, and what its vCPUs do next.
It is written in [Verus](https://github.com/verus-lang/verus): every function of the
library states what it returns or changes in `requires` and `ensures`, and the
properties that span several functions stand beside them as public proof functions
named `law_…`.

## The library

| Module | What it is |
|---|---|
| `config`, `slots` | the device layout of a machine: bus names, disk and partition ids, and which device gets which slot |
| `devtree`, `platform` | the survey of a base device tree: every node and property is claimed, every address comes from the tree, no two regions overlap |
| `substrate` | what a hypervisor needs to know of the interrupt controllers in a tree |
| `mmio`, `shared_memory`, `interrupts`, `syscon` | the MMIO bus, the guest memory that devices may touch, wired and message interrupts, the power-off and reset registers |
| `pci` | configuration space, the bus and its ECAM window, port access, MSI-X |
| `virtio`, `pci_virtio`, `mmio_virtio` | the two virtio transports |
| `virtio_blk`, `uart`, `device` | a block device, a 16550 serial port, what a device gets from its host |
| `machine`, `cpu_state`, `vcpu_exit`, `message_table` | what the machine backends have in common |
| `kvm`, `hvf`, `whp` | the decisions of the three backends: interrupt routes, CPU profiles, register state, exits, PSCI, vCPU threads |
| `bytes`, `text`, `hexstr` | bytes and text |

Work that alternates with the outside world (guest memory, disks, hypervisor calls)
is written as a state machine: a step takes what happened and says what to do next.
The owner of the machine does it and reports back.

## What is taken on trust

The calls into other crates and into `std` that Verus does not know stand behind
small functions marked `external_body`, each with a comment that says what is
believed of the call: SHA-256 (`sha2`), hexadecimal text (`hex`), UTF-8 (`std`),
guest memory (`vm-memory`) and the CPUID instruction.

## Around the library

`app/` binds the library to the host: layouts as JSON and as arguments, device-tree
parsers, worker threads, files, the terminal, and the KVM, macOS and Windows
hypervisors. It is ordinary Rust, and tests the conditions of the library functions
that it calls.

`tests/` runs the library on concrete values.
