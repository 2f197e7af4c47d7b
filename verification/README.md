# contained

A minimal Linux container runtime. It isolates a process with Linux namespaces, maps its users
with a user namespace, makes a directory its root filesystem, drops dangerous capabilities, and
installs a system call filter before it becomes the target command.

    sudo contained -m ./rootfs -u 0 -c /bin/sh

## Layout

`src/` is the library, verified with Verus: every decision of the runtime. Of the system it only
reads the clock, for a host name; all else is asked of the program around it. A procedure is a list
of steps, and a `Run` walks through procedures: it asks for one action at a time and is told what
became of it.

- `action`: the actions, what can be answered, and what a failure means.
- `mounts`, `userns`, `capabilities`, `syscalls`: the parts of the container's setup.
- `child`, `parent`: the two sides of the runtime.
- `resources`: limits through version 1 control groups. Nothing applies them by default.
- `run`: the state machine. `laws`: what holds of whole runs, for instance that the command never
  runs unless every part of the setup has been gone through.
- `args`, `kernel`, `hostname`: the command line, the systems that are accepted, host names.
- `handshake`, `cstring`, `path`, `text`: integers on the socket, C strings, paths, numerals.

`app/` is the program: it performs the actions. `tests/` runs the library.
