# monkeyos

A small web operating system — a message-passing microkernel with its
desktop services, a widget toolkit, desktop applications and command-line
programs — written as a Verus library whose behaviour is stated in
`requires`/`ensures` contracts and proved.

Layout:

- `src/` — the verified library.
  - `ipc`, `sys`, `process`, `kernel`, `api`, `host`, `wasi`: mailboxes,
    the service registry, the scheduler, the boot sequence and the
    requests the kernel makes of the host page.
  - `services/`: the file-system, input, display, window-manager and
    terminal services, each a process with a verified time slice. The
    window manager starts applications from the start menu by sending the
    kernel (pid 0) a `SpawnApp` message naming the application; the kernel
    answers by starting a terminal service, or by asking the host to run
    the application's program. (The window manager's own way of starting
    processes, a `spawn_process` call on its environment, is left open by
    the system call interface, so it is carried by this message.)
  - `ui/`: buttons, windows, scrolling lists and the file picker, which
    describe what to draw as drawing commands. A `Button` holds no click
    callback: on a release, each application tests which of its pressed
    buttons lies under the pointer and does what that button is for, so
    that what a click does is part of the application's verified step.
  - `apps/`: the desktop applications (state machines fed with events)
    and the command-line programs' logic (shell, core utilities, editor,
    beep).
  - `text`, `paths`: character-level helpers and absolute paths.
- `tests/` — tests on concrete values.
- `app/` — the host side: the exports the page calls, the page's drawing,
  sound, file and process functions, floating-point layout, and the
  programs' `main`s.
