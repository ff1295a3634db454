# nvrc

The init process of a confidential GPU virtual machine, as a library of
verified decisions and a thin program around it.

`src/` is checked by Verus. It describes what the program does: the log
messages before the C runtime is up, the handlers of fatal signals, the panic
hook that powers the machine off, the stand-ins for `__libc_start_main`,
`sysconf` and `abort`, and the steps of a boot in each mode. Code that runs
before the C runtime, or inside a signal handler, allocates nothing: its types
(`Script`, `Run`, `NumberLine`, `Effect`) are fixed arrays, numbers and borrowed
slices, and no function on those paths makes a `Vec` or a `String`. This can be
read off the types; it is not among the things that Verus proves.

`app/` performs what `src/` describes: system calls, signal handlers, the panic
hook, and the steps of the boot. The subsystems that the steps call on (mounts,
daemons, `modprobe`, the agent and so on) are linked in from elsewhere.

The constants of the C library that the contracts state are those of Linux on
x86-64.
