# xous_hosted

Hosted-mode process plumbing for a message-passing microkernel, verified
with Verus, and the decision logic of two small test services.

`src/` is the verified library:

- `le` — little-endian integers: the model (`le_bytes`, `le_value`,
  `words_le`), its laws, and the std conversions that produce and read them.
- `process` — process keys, launch arguments, and how a key travels in
  syscall argument words (`process_to_args` / `args_to_process`, proved
  inverse to each other).
- `hexcode` — hexadecimal text for keys, through the `hex` crate.
- `launch` — the environment and shell command a child process is started
  with, reading the key and process ID back on the child's side, and what
  waiting for a child reports.
- `wire` — framing of syscall requests and response headers on the link to
  the kernel, with the header round trip proved.
- `syscall` — the decisions around a syscall: memory kinds, what each kind
  of response calls for, settling lent memory.
- `thread_table` — the per-thread mailbox and memory tracker.
- `usb_test`, `test_stub` — request numbering, buffer handling and test
  patterns of the two services.

`app/` holds what Verus does not see: environment lookup, spawning and
waiting for processes, the TCP link and its reader thread, and the archivable
copy of the WiFi subscription type.
