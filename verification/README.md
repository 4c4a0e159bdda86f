# rs-route

Muskingum-Cunge channel routing for NextGen river networks. The rules of a run are a library
written in Verus; the program around it reads files, starts threads and does the floating-point
arithmetic.

## Layout

- `src/cli.rs`, `src/command.rs`: command line, run directories, configuration, banner.
- `src/config.rs`: the forcing step, column names, channel geometry.
- `src/network.rs`, `src/fx.rs`: the network, kept in `rustc_hash` maps.
- `src/io/`: lateral inflow files and models, simulation period, results and their downsampling.
- `src/kernel/`: the kernels by name, and the lockstep of the lane kernel with its laws.
- `src/routing/`: scheduler, worker batches, routing a node or a batch of nodes, writer batches,
  and the laws that hold of them.
- `src/text.rs`: numbers, paths, lines and white space.
- `tests/`: the library on concrete values, with the outside crates linked.
- `app/`: the program. It settles and announces a run; the GeoPackage reader, the NetCDF result
  file and the scalar kernels are not part of it and are supplied through traits.

## Numbers

Functions that touch flows or depths are generic over a number type. The caller passes its zero
and the arithmetic (a kernel, an addition, one iteration of the depth solver) as closures, and the
contracts say which calls were made on which values.

## Laws

Public proof functions named `law_...` state what holds of the library as a whole: a node is
routed once, after its whole basin; nodes running together never depend on each other; a run that
comes to rest has routed every node; a lane's result depends neither on the other lanes nor on its
place, and the slowest lane decides how many iterations are spent; routing in batches agrees with
routing alone; routing is causal; two hydrographs may reach a node in either order; an unknown
variable is read as the third column; nothing that is handed to the writer is lost; the routing
clock keeps step with the forcing clock. Of a whole run: each node with channel parameters is
written once and nothing else is, and neither the number of workers nor the order of completions
shows in the hydrographs where at most two routed nodes drain into any one.

## What is taken on trust

Calls into `clap`, `csv`, `chrono`, `num_cpus` and `rustc_hash`, and `std::str::from_utf8`, stand
behind small functions marked `external_body`. The comment above each says what is claimed.
