# tasksim

A simulated task scheduler. A generator creates CPU-bound and IO-bound
tasks, a manager hands them to a pool of worker threads while the CPU they
hold together stays within a budget (CPU tasks take 35%, IO tasks 10%), and
a monitor samples the load. Two policies are compared: plain FIFO, and an
optimising policy that packs IO tasks next to CPU tasks to fill the budget.

- `src/` is the verified library: the presets (`config`), tasks (`task`),
  the task generator (`generator`), the manager's state and dispatching
  (`manager`, with the laws that hold over any run in `dispatch_laws`), the
  counters published for the monitor (`snapshot`) and the metrics
  (`metrics`).
- `app/` is the program that runs three experiments: it starts the threads,
  moves events over channels, sleeps, reads the clock and prints.
- `tests/` exercises the library on concrete runs.
