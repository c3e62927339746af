# rshell

A small interactive shell with a few built-in commands (`cd`, `pwd`, `chat`,
`fileshare`), written in Verus.

- `src/` is the verified library: splitting a command line into words
  (`text`, `command::cmd`), the table of built-ins and the choice of the
  command to run (`command::builtin`), what each built-in asks for
  (`command::cmd_*`), the chat's user records and session steps
  (`command::cmd_chat`), and what the shell does with each line (`shell`).
- `app/` is the program around it: the prompt, the terminal, the file
  system and the libp2p network.
