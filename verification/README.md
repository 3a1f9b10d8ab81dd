# turn_control

The decisions of an agent's turn, proved with Verus: which commands of a prompt
the controller validates, what the model sees of that prompt, how a failed
validation is handed back to the model, what a turn keeps while it runs, and
which checks a shell command passes before it runs.

- `src/` is the library. Nothing in it waits, reads or prints.
  - `controller_validation`: the command section and the checklist of a prompt,
    the commands to run, and the messages about them.
  - `regular`: a regular turn as a state machine, with its bounded repairs.
  - `turn`: the state of a turn and its tasks.
  - `shell`: a shell command as a state machine, for tool calls and validations.
  - `tool_payload`: the command of a tool call and what hooks are told of it.
  - `metrics`: what is counted about a turn.
  - `text`, `keyed`, `user_input`, `host`: lines and trimming, a map, the items
    of a prompt, and the types that the library carries for its host.
- `app/` is the asynchronous side: it performs the actions that the state
  machines ask for, through traits that a session implements.
- `tests/` runs the library.

A state machine of the library hands out one action at a time. Its host performs
the action and hands back the event that answers it.
