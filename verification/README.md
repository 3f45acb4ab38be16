# mc_launch

The decisions behind launching a Minecraft instance, verified with Verus: which
libraries are on the class path, which arguments the Java virtual machine and
the game get, who may launch, what happens to the environment, and in which
order all of this goes.

- `src/` is the library. `machine` ties it together: a launch is a machine whose
  phase says what has to be done next and whose events report how it went.
  `laws` states what holds of every launch, `provenance` where the command line
  of a launch comes from.
- `app/` performs what the machine asks for: it reads files, refreshes tokens
  through the application around it, starts the game and watches over it.
- `tests/` runs the library on concrete launches.
