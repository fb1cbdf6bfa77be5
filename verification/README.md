# northstar_init

The decisions of the init process of a container, verified with Verus.

The library in `src/` says which operations the init process asks for, in which
order, and how it goes on from each answer. It performs none of them.

- `init`, `mount`, `capability`, `limits`, `path`: the configuration, and the
  operations that follow from it.
- `child`: the steps of the forked child on its way to the application.
- `action`, `message`: operations, answers and messages.
- `run`: the process itself, a state machine from one answer to the next action.
- `course`, `confinement`: what holds of every course of the process, whatever
  the answers are.

`app/` performs the operations on Linux and drives the state machine.
