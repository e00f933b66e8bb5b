# compio-executor

The scheduling core of a single-threaded executor, verified with Verus.

`src/` is the core. It holds the tasks and decides what is to be done with them; it polls nothing
itself.

- `slots`, `slot_queue`: the tasks by name, in two doubly linked lists. Woken tasks are hot, waiting
  ones are cold. `lists` relates the links to the two sequences of tasks that they spell out.
- `queue`: the task queue with the channel through which other threads wake tasks, the handles that
  name tasks, and the way through the queue. Running a task takes two calls: `run` hands out what
  is to be polled, `settle` takes it back or drops the task.
- `executor`, `config`: rounds of tasks, and what follows from a poll of the main future.
- `task`, `oneshot`, `join`: what becomes of the outcome of a poll, and what the one who waits for a
  task gets to see.
- `state`, `guard`, `inner`: the state flags of a task, the guard of a running one, and its future.
- `local`, `run_queue`, `channel`: run queues, with a local end and a shared one.

A queue can be brought into a state in which a link leads to a task that is no longer there: a cold
task that is made cold again stays linked from the place that it had. The `can_...` functions tell
whether an operation can be carried out; in a queue whose links spell out two lists, it can.

`app/` is an executor for futures built on the core.
